//! A basket fund: fund tokens stand for a share of a reserve of
//! denominator tokens and of the tokens of each investment. Holders stake
//! fund tokens on an investment; queued stakes and unstakes are processed
//! after an auction delay, and an unstake is rewarded or penalised by how
//! the investment's price moved while it was staked.
//!
//! Swaps run in the investments' pools and sales and purchases in their
//! auctions. Each processing step is a function from the fund and those
//! outcomes to the next fund; the rounds and the processing of whole
//! queues run the pools and auctions themselves, found by id. A request
//! that fails a check (an assertion, an overflow, a
//! division by zero) is refused with an error and leaves the fund,
//! and the pools and auctions, unchanged.
use vstd::prelude::*;
use crate::decimal::{Decimal, in_range, mul_attos, div_attos, one_attos, lemma_floor_bounds};
use crate::amm_pool::{Pool, can_swap, swapped};
use crate::auction::{Auction, AuctionState, auction_states, all_wf, can_auction, auction_outcome, auctioned, copy_auctions};

verus! {

/// Where a stake stands; it moves Staking -> Staked -> Unstaking -> Unstaked
/// (or straight from Staking to Unstaked when its purchase fails).
#[derive(Clone, Copy, Debug, PartialEq, Eq, Structural)]
pub enum Status {
    Staking,
    Staked,
    Unstaking,
    Unstaked,
}

/// The data of a stake receipt.
#[derive(Clone, Copy, Debug, PartialEq, Eq, Structural)]
pub struct StakeReceipt {
    /// Index of the investment staked on.
    pub investment: usize,
    /// Fund tokens staked.
    pub stake: Decimal,
    /// Price paid for the investment's tokens when the stake was placed.
    pub price: Decimal,
    /// Fund tokens gained (or, when negative, lost) on unstaking.
    pub reward: Decimal,
    pub status: Status,
}

/// One investment of the fund.
#[derive(Clone, Copy, Debug, PartialEq, Eq, Structural)]
pub struct Investment {
    /// The pool the fund swaps with for this investment.
    pub amm_pool: u64,
    /// The investment's token.
    pub token: u64,
    /// Tokens of the investment that the fund holds.
    pub tokens: Decimal,
    /// Fund tokens staked on the investment.
    pub stake_pool: Decimal,
    /// Auction buying the investment's token with denominator tokens.
    pub buy_auction: u64,
    /// Auction selling the investment's token for denominator tokens.
    pub sell_auction: u64,
}

/// A queued stake.
#[derive(Clone, Copy, Debug, PartialEq, Eq, Structural)]
pub struct Stake {
    /// Epoch the stake was queued in.
    pub epoch: u64,
    /// Id of its receipt.
    pub stake_receipt: u64,
}

/// A queued unstake.
#[derive(Clone, Copy, Debug, PartialEq, Eq, Structural)]
pub struct Unstake {
    /// Epoch the unstake was queued in.
    pub epoch: u64,
    /// Id of its receipt.
    pub stake_receipt: u64,
}

/// Why the fund refused a request.
#[derive(Clone, Copy, Debug, PartialEq, Eq, Structural)]
pub enum FundError {
    /// The auction delay is not above one epoch.
    InvalidAuctionDelay,
    /// The fee percent is outside 0..=10.
    InvalidFeePercent,
    /// The fund has been made immutable.
    NotMutable,
    /// The pool's second token is not the denominator token.
    InvalidPair,
    /// No investment has this index.
    InvestmentNotFound,
    /// A stake must be greater than zero.
    NonPositiveStake,
    /// No live stake receipt has this id.
    InvalidReceipt,
    /// The stake is still being placed.
    CurrentlyStaking,
    /// The stake is placed and must be unstaked first.
    CurrentlyStaked,
    /// The stake is already being unstaked.
    AlreadyUnstaking,
    /// The stake is already unstaked.
    AlreadyUnstaked,
    /// A vault does not hold the tokens to take.
    InsufficientTokens,
    /// An amount overflows or a divisor is zero.
    Arithmetic,
    /// The outcomes given do not match the investments.
    OutcomeMismatch,
    /// No queued entry is due.
    NothingDue,
    /// No auction has the id an investment names.
    UnknownAuction,
    /// No pool has the id an investment names.
    UnknownPool,
}

/// Fund tokens staked on the first `n` investments.
pub open spec fn stake_sum(s: Seq<Investment>, n: int) -> int
    decreases n,
{
    if n <= 0 {
        0
    } else {
        stake_sum(s, n - 1) + s[n - 1].stake_pool@
    }
}

/// Fund tokens staked over all investments.
pub open spec fn total_stake(s: Seq<Investment>) -> int {
    stake_sum(s, s.len() as int)
}

/// Every stake pool is non-negative.
pub open spec fn stakes_nonneg(s: Seq<Investment>) -> bool {
    forall|i: int| #![trigger s[i]] 0 <= i < s.len() ==> s[i].stake_pool@ >= 0
}

proof fn lemma_stake_sum_mono(s: Seq<Investment>, i: int, n: int)
    requires
        stakes_nonneg(s),
        0 <= i <= n <= s.len(),
    ensures
        0 <= stake_sum(s, i) <= stake_sum(s, n),
    decreases n,
{
    if i < n {
        lemma_stake_sum_mono(s, i, n - 1);
        assert(s[n - 1].stake_pool@ >= 0);
    } else if n > 0 {
        lemma_stake_sum_mono(s, n - 1, n - 1);
        assert(s[n - 1].stake_pool@ >= 0);
    }
}

proof fn lemma_stake_sum_update(s: Seq<Investment>, k: int, v: Investment, n: int)
    requires
        0 <= k < s.len(),
        0 <= n <= s.len(),
    ensures
        stake_sum(s.update(k, v), n) == stake_sum(s, n) + (if k < n {
            v.stake_pool@ - s[k].stake_pool@
        } else {
            0
        }),
    decreases n,
{
    if n > 0 {
        lemma_stake_sum_update(s, k, v, n - 1);
    }
}

proof fn lemma_stake_sum_push(s: Seq<Investment>, v: Investment, n: int)
    requires
        0 <= n <= s.len(),
    ensures
        stake_sum(s.push(v), n) == stake_sum(s, n),
        stake_sum(s.push(v), s.len() + 1int) == stake_sum(s, s.len() as int) + v.stake_pool@,
    decreases n,
{
    if n > 0 {
        lemma_stake_sum_push(s, v, n - 1);
    }
    lemma_stake_sum_prefix(s.push(v), s, s.len() as int);
}

proof fn lemma_stake_sum_prefix(s: Seq<Investment>, t: Seq<Investment>, n: int)
    requires
        0 <= n <= s.len(),
        n <= t.len(),
        forall|i: int| 0 <= i < n ==> s[i] == t[i],
    ensures
        stake_sum(s, n) == stake_sum(t, n),
    decreases n,
{
    if n > 0 {
        lemma_stake_sum_prefix(s, t, n - 1);
        assert(s[n - 1] == t[n - 1]);
    }
}

/// Denominator tokens spent on one investment in a buying round: `base`
/// times the investment's stake over the total stake, capped by what is
/// available; `None` on overflow or a zero total.
pub open spec fn buy_amount_spec(base: int, stake_pool: int, total: int, avail: int) -> Option<int> {
    let p = mul_attos(base, stake_pool);
    let c = div_attos(p, total);
    if !in_range(p) || total == 0 || !in_range(c) {
        None
    } else if c <= avail {
        Some(c)
    } else {
        Some(avail)
    }
}

/// One investment's purchase in a buying round. `outcome` is what the
/// purchase returned: the investment's tokens bought and the denominator
/// tokens left unspent. Gives the updated investment, the denominator
/// tokens then available, and the value bought (tokens bought over tokens
/// held, times the stake); `None` where an amount overflows or a check fails.
pub open spec fn buy_step(
    inv: Investment,
    base: int,
    total: int,
    avail: int,
    outcome: (Decimal, Decimal),
) -> Option<(Investment, int, int)> {
    match buy_amount_spec(base, inv.stake_pool@, total, avail) {
        None => None,
        Some(buy) => if buy <= 0 {
            Some((inv, avail, 0))
        } else {
            let got = outcome.0@;
            let q = div_attos(got, inv.tokens@);
            let v = mul_attos(q, inv.stake_pool@);
            let t2 = inv.tokens@ + got;
            let a2 = avail - buy + outcome.1@;
            if inv.tokens@ == 0 || !in_range(q) || !in_range(v) || !in_range(t2) || !in_range(
                a2,
            ) {
                None
            } else {
                Some((Investment { tokens: Decimal { attos: t2 as i128 }, ..inv }, a2, v))
            }
        },
    }
}

/// A buying round over the first `n` investments, starting with `avail0`
/// denominator tokens: the investments bought for, the tokens left and the
/// summed value bought; `None` where an amount overflows or a check fails.
pub open spec fn buy_fold(
    invs: Seq<Investment>,
    base: int,
    total: int,
    avail0: int,
    outcomes: Seq<(Decimal, Decimal)>,
    n: int,
) -> Option<(Seq<Investment>, int, int)>
    decreases n,
{
    if n <= 0 {
        Some((Seq::empty(), avail0, 0))
    } else {
        match buy_fold(invs, base, total, avail0, outcomes, n - 1) {
            None => None,
            Some(acc) => match buy_step(invs[n - 1], base, total, acc.1, outcomes[n - 1]) {
                None => None,
                Some(st) => if in_range(acc.2 + st.2) {
                    Some((acc.0.push(st.0), st.1, acc.2 + st.2))
                } else {
                    None
                },
            },
        }
    }
}

/// Whether `t` is `s` with only token holdings changed, over the first `n`.
pub open spec fn same_but_tokens(s: Seq<Investment>, t: Seq<Investment>, n: int) -> bool {
    &&& t.len() == n
    &&& n <= s.len()
    &&& forall|i: int|
        #![trigger t[i]]
        0 <= i < n ==> t[i] == (Investment { tokens: t[i].tokens, ..s[i] })
}

proof fn lemma_buy_fold_none(
    invs: Seq<Investment>,
    base: int,
    total: int,
    avail0: int,
    outcomes: Seq<(Decimal, Decimal)>,
    n: int,
    m: int,
)
    requires
        0 <= n <= m,
        buy_fold(invs, base, total, avail0, outcomes, n) is None,
    ensures
        buy_fold(invs, base, total, avail0, outcomes, m) is None,
    decreases m,
{
    if n < m {
        lemma_buy_fold_none(invs, base, total, avail0, outcomes, n, m - 1);
    }
}

proof fn lemma_buy_fold_shape(
    invs: Seq<Investment>,
    base: int,
    total: int,
    avail0: int,
    outcomes: Seq<(Decimal, Decimal)>,
    n: int,
)
    requires
        0 <= n <= invs.len(),
        buy_fold(invs, base, total, avail0, outcomes, n) is Some,
    ensures
        same_but_tokens(invs, buy_fold(invs, base, total, avail0, outcomes, n).unwrap().0, n),
    decreases n,
{
    if n > 0 {
        lemma_buy_fold_shape(invs, base, total, avail0, outcomes, n - 1);
        let acc = buy_fold(invs, base, total, avail0, outcomes, n - 1).unwrap();
        let t = buy_fold(invs, base, total, avail0, outcomes, n).unwrap().0;
        assert forall|i: int| 0 <= i < n implies #[trigger] t[i] == (Investment {
            tokens: t[i].tokens,
            ..invs[i]
        }) by {
            if i < n - 1 {
                assert(t[i] == acc.0[i]);
            }
        }
    }
}

proof fn lemma_plan_fold_len(invs: Seq<Investment>, base: int, total: int, avail0: int, n: int)
    requires
        0 <= n,
        plan_fold(invs, base, total, avail0, n) is Some,
    ensures
        plan_fold(invs, base, total, avail0, n).unwrap().0.len() == n,
    decreases n,
{
    if n > 0 {
        lemma_plan_fold_len(invs, base, total, avail0, n - 1);
    }
}

proof fn lemma_plan_fold_none(
    invs: Seq<Investment>,
    base: int,
    total: int,
    avail0: int,
    n: int,
    m: int,
)
    requires
        0 <= n <= m,
        plan_fold(invs, base, total, avail0, n) is None,
    ensures
        plan_fold(invs, base, total, avail0, m) is None,
    decreases m,
{
    if n < m {
        lemma_plan_fold_none(invs, base, total, avail0, n, m - 1);
    }
}

proof fn lemma_stake_sum_same_pools(s: Seq<Investment>, t: Seq<Investment>, n: int)
    requires
        0 <= n <= s.len(),
        n <= t.len(),
        forall|i: int| 0 <= i < n ==> #[trigger] s[i].stake_pool == t[i].stake_pool,
    ensures
        stake_sum(s, n) == stake_sum(t, n),
    decreases n,
{
    if n > 0 {
        lemma_stake_sum_same_pools(s, t, n - 1);
        assert(s[n - 1].stake_pool == t[n - 1].stake_pool);
    }
}

/// The denominator tokens spent on one investment in a buying round (see
/// `buy_amount_spec`), or `None` where an amount overflows or a check fails.
pub fn buy_amount(base: Decimal, stake_pool: Decimal, total: Decimal, avail: Decimal) -> (r: Option<
    Decimal,
>)
    ensures
        r is Some <==> buy_amount_spec(base@, stake_pool@, total@, avail@) is Some,
        r matches Some(v) ==> Some(v@) == buy_amount_spec(base@, stake_pool@, total@, avail@),
{
    let p = match base.checked_mul(stake_pool) {
        Some(p) => p,
        None => {
            return None;
        },
    };
    let c = match p.checked_div(total) {
        Some(c) => c,
        None => {
            return None;
        },
    };
    Some(c.min(avail))
}

/// Runs a buying round over the first `outcomes.len()` investments.
fn buy_round(
    invs: &Vec<Investment>,
    base: Decimal,
    total: Decimal,
    avail0: Decimal,
    outcomes: &Vec<(Decimal, Decimal)>,
) -> (r: Option<(Vec<Investment>, Decimal, Decimal)>)
    requires
        outcomes@.len() <= invs@.len(),
    ensures
        r is Some <==> buy_fold(invs@, base@, total@, avail0@, outcomes@, outcomes@.len() as int) is Some,
        r matches Some(x) ==> buy_fold(invs@, base@, total@, avail0@, outcomes@, outcomes@.len() as int)
            == Some((x.0@, x.1@, x.2@)),
{
    let mut done: Vec<Investment> = Vec::new();
    let mut avail = avail0;
    let mut value = Decimal::zero();
    let mut i: usize = 0;
    while i < outcomes.len()
        invariant
            outcomes@.len() <= invs@.len(),
            0 <= i <= outcomes@.len(),
            buy_fold(invs@, base@, total@, avail0@, outcomes@, i as int) == Some(
                (done@, avail@, value@),
            ),
        decreases outcomes@.len() - i,
    {
        let inv = invs[i];
        let outcome = outcomes[i];
        let buy = match buy_amount(base, inv.stake_pool, total, avail) {
            Some(b) => b,
            None => {
                proof {
                    lemma_buy_fold_none(
                        invs@,
                        base@,
                        total@,
                        avail0@,
                        outcomes@,
                        i + 1,
                        outcomes@.len() as int,
                    );
                }
                return None;
            },
        };
        if buy.le(Decimal::zero()) {
            done.push(inv);
        } else {
            let stepped = if inv.tokens.is_zero() {
                None
            } else {
                match (outcome.0.checked_div(inv.tokens), outcome.0.checked_add(inv.tokens)) {
                    (Some(q), Some(t2)) => match (q.checked_mul(inv.stake_pool), avail.sub(
                        buy,
                    ).checked_add(outcome.1)) {
                        (Some(v), Some(a2)) => match value.checked_add(v) {
                            Some(nv) => Some((t2, a2, nv)),
                            None => None,
                        },
                        _ => None,
                    },
                    _ => None,
                }
            };
            match stepped {
                Some((t2, a2, nv)) => {
                    done.push(Investment { tokens: t2, ..inv });
                    avail = a2;
                    value = nv;
                },
                None => {
                    proof {
                        lemma_buy_fold_none(
                            invs@,
                            base@,
                            total@,
                            avail0@,
                            outcomes@,
                            i + 1,
                            outcomes@.len() as int,
                        );
                    }
                    return None;
                },
            }
        }
        i = i + 1;
    }
    Some((done, avail, value))
}

/// Purchase amounts of a buying round whose purchases spend all they are
/// given (swaps), over the first `n` investments starting with `avail0`.
pub open spec fn plan_fold(invs: Seq<Investment>, base: int, total: int, avail0: int, n: int) -> Option<
    (Seq<int>, int),
>
    decreases n,
{
    if n <= 0 {
        Some((Seq::empty(), avail0))
    } else {
        match plan_fold(invs, base, total, avail0, n - 1) {
            None => None,
            Some(acc) => match buy_amount_spec(base, invs[n - 1].stake_pool@, total, acc.1) {
                None => None,
                Some(b) => Some(
                    (
                        acc.0.push(
                            if b > 0 {
                                b
                            } else {
                                0
                            },
                        ),
                        if b > 0 {
                            acc.1 - b
                        } else {
                            acc.1
                        },
                    ),
                ),
            },
        }
    }
}

/// Swap outcomes: the tokens received, nothing left unspent.
pub open spec fn swap_outcomes(received: Seq<Decimal>) -> Seq<(Decimal, Decimal)> {
    Seq::new(received.len(), |i: int| (received[i], Decimal { attos: 0 }))
}

/// Minting fund tokens for `amount` denominator tokens, given what each
/// investment's swap returned: the investments after the purchases, the new
/// reserve, and the fund tokens minted; `None` where an amount overflows or a check fails.
///
/// With no fund tokens in circulation the amount is minted one to one and
/// kept in reserve. With stakers, the amount buys each investment's tokens
/// in proportion to its stake, and the tokens minted are the supply times
/// the value bought over the total stake. Without stakers the amount goes
/// to the reserve and the supply grows by the amount over the reserve.
pub open spec fn mint_spec(f: Fund, amount: int, received: Seq<Decimal>) -> Option<
    (Seq<Investment>, int, int),
> {
    let reserve = f.denominator_tokens@;
    let supply = f.supply@;
    let t = total_stake(f.investments@);
    if supply == 0 {
        if in_range(reserve + amount) && in_range(supply + amount) {
            Some((f.investments@, reserve + amount, amount))
        } else {
            None
        }
    } else if t > 0 {
        match buy_fold(
            f.investments@,
            amount,
            t,
            amount,
            swap_outcomes(received),
            f.investments@.len() as int,
        ) {
            None => None,
            Some(acc) => {
                let rel = div_attos(acc.2, t);
                let m = mul_attos(supply, rel);
                if in_range(rel) && in_range(m) && in_range(reserve + acc.1) && in_range(
                    supply + m,
                ) {
                    Some((acc.0, reserve + acc.1, m))
                } else {
                    None
                }
            },
        }
    } else {
        let rel = div_attos(amount, reserve);
        let m = mul_attos(supply, rel);
        if reserve != 0 && in_range(rel) && in_range(m) && in_range(reserve + amount) && in_range(
            supply + m,
        ) {
            Some((f.investments@, reserve + amount, m))
        } else {
            None
        }
    }
}

/// Tokens taken from each of the first `n` investments for a share `own`
/// (each holding times the share); `None` where a product overflows or a
/// holding does not cover its part.
pub open spec fn sell_fold(invs: Seq<Investment>, own: int, n: int) -> Option<Seq<int>>
    decreases n,
{
    if n <= 0 {
        Some(Seq::empty())
    } else {
        match sell_fold(invs, own, n - 1) {
            None => None,
            Some(acc) => {
                let x = mul_attos(invs[n - 1].tokens@, own);
                if in_range(x) && 0 <= x <= invs[n - 1].tokens@ {
                    Some(acc.push(x))
                } else {
                    None
                }
            },
        }
    }
}

/// What redeeming `amount` fund tokens takes: the share of the fund they
/// own, the reserve tokens taken, and the tokens taken from each
/// investment; `None` where an amount overflows or a check fails.
pub open spec fn redeem_shares(f: Fund, amount: int) -> Option<(int, int, Seq<int>)> {
    let own = div_attos(amount, f.supply@);
    let take = mul_attos(f.denominator_tokens@, own);
    if f.supply@ == 0 || !in_range(own) || !in_range(take) || !(0 <= take
        <= f.denominator_tokens@) || !in_range(f.supply@ - amount) {
        None
    } else {
        match sell_fold(f.investments@, own, f.investments@.len() as int) {
            None => None,
            Some(sells) => Some((own, take, sells)),
        }
    }
}

/// The investments after `sells[i]` tokens leave investment `i`.
pub open spec fn apply_sells(invs: Seq<Investment>, sells: Seq<int>) -> Seq<Investment> {
    Seq::new(
        invs.len(),
        |i: int| Investment { tokens: Decimal { attos: (invs[i].tokens@ - sells[i]) as i128 }, ..invs[i] },
    )
}

/// `start` plus the first `n` amounts, or `None` where a partial sum leaves
/// the decimal range.
pub open spec fn sum_fold(s: Seq<Decimal>, start: int, n: int) -> Option<int>
    decreases n,
{
    if n <= 0 {
        Some(start)
    } else {
        match sum_fold(s, start, n - 1) {
            None => None,
            Some(acc) => if in_range(acc + s[n - 1]@) {
                Some(acc + s[n - 1]@)
            } else {
                None
            },
        }
    }
}

proof fn lemma_sell_fold_none(invs: Seq<Investment>, own: int, n: int, m: int)
    requires
        0 <= n <= m,
        sell_fold(invs, own, n) is None,
    ensures
        sell_fold(invs, own, m) is None,
    decreases m,
{
    if n < m {
        lemma_sell_fold_none(invs, own, n, m - 1);
    }
}

proof fn lemma_sell_fold_elem(invs: Seq<Investment>, own: int, n: int, i: int)
    requires
        0 <= i < n <= invs.len(),
        sell_fold(invs, own, n) is Some,
    ensures
        sell_fold(invs, own, n).unwrap().len() == n,
        sell_fold(invs, own, n).unwrap()[i] == mul_attos(invs[i].tokens@, own),
        0 <= sell_fold(invs, own, n).unwrap()[i] <= invs[i].tokens@,
    decreases n,
{
    lemma_sell_fold_len(invs, own, n);
    if i < n - 1 {
        lemma_sell_fold_elem(invs, own, n - 1, i);
    }
}

proof fn lemma_sum_fold_none(s: Seq<Decimal>, start: int, n: int, m: int)
    requires
        0 <= n <= m,
        sum_fold(s, start, n) is None,
    ensures
        sum_fold(s, start, m) is None,
    decreases m,
{
    if n < m {
        lemma_sum_fold_none(s, start, n, m - 1);
    }
}

proof fn lemma_sell_fold_len(invs: Seq<Investment>, own: int, n: int)
    requires
        0 <= n,
        sell_fold(invs, own, n) is Some,
    ensures
        sell_fold(invs, own, n).unwrap().len() == n,
    decreases n,
{
    if n > 0 {
        lemma_sell_fold_len(invs, own, n - 1);
    }
}

/// Adds `start` and the amounts in `s`, or `None` on overflow.
fn sum_amounts(s: &Vec<Decimal>, start: Decimal) -> (r: Option<Decimal>)
    ensures
        r is Some <==> sum_fold(s@, start@, s@.len() as int) is Some,
        r matches Some(v) ==> sum_fold(s@, start@, s@.len() as int) == Some(v@),
{
    let mut acc = start;
    let mut i: usize = 0;
    while i < s.len()
        invariant
            0 <= i <= s@.len(),
            sum_fold(s@, start@, i as int) == Some(acc@),
        decreases s@.len() - i,
    {
        match acc.checked_add(s[i]) {
            Some(a) => {
                acc = a;
            },
            None => {
                proof {
                    lemma_sum_fold_none(s@, start@, i + 1, s@.len() as int);
                }
                return None;
            },
        }
        i = i + 1;
    }
    Some(acc)
}

/// Whether an entry queued in `queued` is due in `epoch`: the auction
/// delay has fully passed.
pub open spec fn is_due(queued: u64, delay: u64, epoch: u64) -> bool {
    queued + delay < epoch
}

/// Tokens sold from each of the first `n` investments when a new stake
/// dilutes the stakers: `change` times the stake times the holding.
pub open spec fn stake_sell_fold(invs: Seq<Investment>, change: int, n: int) -> Option<Seq<int>>
    decreases n,
{
    if n <= 0 {
        Some(Seq::empty())
    } else {
        match stake_sell_fold(invs, change, n - 1) {
            None => None,
            Some(acc) => {
                let x = mul_attos(change, invs[n - 1].stake_pool@);
                let y = mul_attos(x, invs[n - 1].tokens@);
                if in_range(x) && in_range(y) && 0 <= y <= invs[n - 1].tokens@ {
                    Some(acc.push(y))
                } else {
                    None
                }
            },
        }
    }
}

/// Tokens each investment sells before a stake of `st` fund tokens is
/// placed: none without stakers; otherwise each sells
/// `(1/total - 1/(total + st))` of its stake times its holding.
pub open spec fn staking_sells(invs: Seq<Investment>, st: int) -> Option<Seq<int>> {
    let t = total_stake(invs);
    if t <= 0 {
        Some(Seq::empty())
    } else {
        let c1 = div_attos(one_attos(), t);
        let c2 = div_attos(one_attos(), t + st);
        let ch = c1 - c2;
        if !in_range(t + st) || t + st == 0 || !in_range(c1) || !in_range(c2) || !in_range(ch) {
            None
        } else {
            stake_sell_fold(invs, ch, invs.len() as int)
        }
    }
}

/// The first `n` investments after each sold `sells[i]` tokens and got
/// `rems[i]` back unsold; `None` on overflow.
pub open spec fn sale_fold(invs: Seq<Investment>, sells: Seq<int>, rems: Seq<Decimal>, n: int) -> Option<
    Seq<Investment>,
>
    decreases n,
{
    if n <= 0 {
        Some(Seq::empty())
    } else {
        match sale_fold(invs, sells, rems, n - 1) {
            None => None,
            Some(acc) => {
                let t = invs[n - 1].tokens@ - sells[n - 1] + rems[n - 1]@;
                if in_range(invs[n - 1].tokens@ - sells[n - 1]) && in_range(t) {
                    Some(acc.push(Investment { tokens: Decimal { attos: t as i128 }, ..invs[n - 1] }))
                } else {
                    None
                }
            },
        }
    }
}

/// The sales that processing the head of the staking queue in `epoch`
/// makes (see `staking_sells`), or why it cannot be processed: nothing is
/// due, its receipt is gone, its investment does not exist, or an amount
/// overflows.
pub open spec fn staking_plan_spec(f: Fund, epoch: u64) -> Result<Seq<int>, FundError> {
    let q = f.staking_queue@;
    if q.len() == 0 || !is_due(q[0].epoch, f.auction_delay, epoch) {
        Err(FundError::NothingDue)
    } else if f.receipt(q[0].stake_receipt) is None {
        Err(FundError::InvalidReceipt)
    } else {
        let rc = f.receipt(q[0].stake_receipt).unwrap();
        if rc.investment >= f.investments@.len() {
            Err(FundError::InvestmentNotFound)
        } else {
            match staking_sells(f.investments@, rc.stake@) {
                None => Err(FundError::Arithmetic),
                Some(sells) => Ok(sells),
            }
        }
    }
}

/// Processing the head of the staking queue in `epoch`, given the
/// outcomes of the sales planned by `staking_sells` (`proceeds[i]`
/// denominator tokens and `rems[i]` tokens unsold) and of the purchase that
/// offers the whole reserve (`purchase.0` tokens bought, `purchase.1`
/// denominator tokens left). Gives the investments, the reserve, the kept
/// fund tokens and the head's receipt afterwards.
///
/// The purchase's price is what was spent over what was bought. When it is
/// positive the stake moves to the investment's stake pool and the receipt
/// becomes Staked at that price; otherwise the receipt becomes Unstaked.
pub open spec fn staking_step_spec(
    f: Fund,
    epoch: u64,
    proceeds: Seq<Decimal>,
    rems: Seq<Decimal>,
    purchase: (Decimal, Decimal),
) -> Result<(Seq<Investment>, int, int, StakeReceipt), FundError> {
    match staking_plan_spec(f, epoch) {
        Err(e) => Err(e),
        Ok(sells) => {
            let rc = f.receipt(f.staking_queue@[0].stake_receipt).unwrap();
            let st = rc.stake@;
            let k = rc.investment as int;
            let invs = f.investments@;
            {
                if proceeds.len() != sells.len() || rems.len() != sells.len() {
                    Err(FundError::OutcomeMismatch)
                } else {
                    let after = if sells.len() == 0 {
                        Some(invs)
                    } else {
                        sale_fold(invs, sells, rems, invs.len() as int)
                    };
                    match (after, sum_fold(proceeds, f.denominator_tokens@, proceeds.len() as int)) {
                        (Some(invs2), Some(offer)) => {
                            let bought = purchase.0@;
                            let spent = offer - purchase.1@;
                            let price = if bought > 0 {
                                div_attos(spent, bought)
                            } else {
                                0
                            };
                            let tk = invs2[k].tokens@ + bought;
                            if !in_range(spent) || !in_range(price) || !in_range(tk) {
                                Err(FundError::Arithmetic)
                            } else {
                                let inv_k = Investment { tokens: Decimal { attos: tk as i128 }, ..invs2[k] };
                                if price > 0 {
                                    if st < 0 || st > f.fund_tokens@ {
                                        Err(FundError::InsufficientTokens)
                                    } else if !in_range(total_stake(invs) + st) {
                                        Err(FundError::Arithmetic)
                                    } else {
                                        let inv_k2 = Investment {
                                            stake_pool: Decimal { attos: (inv_k.stake_pool@ + st) as i128 },
                                            ..inv_k
                                        };
                                        Ok(
                                            (
                                                invs2.update(k, inv_k2),
                                                purchase.1@,
                                                f.fund_tokens@ - st,
                                                StakeReceipt {
                                                    status: Status::Staked,
                                                    price: Decimal { attos: price as i128 },
                                                    ..rc
                                                },
                                            ),
                                        )
                                    }
                                } else {
                                    Ok(
                                        (
                                            invs2.update(k, inv_k),
                                            purchase.1@,
                                            f.fund_tokens@,
                                            StakeReceipt { status: Status::Unstaked, ..rc },
                                        ),
                                    )
                                }
                            }
                        },
                        _ => Err(FundError::Arithmetic),
                    }
                }
            }
        },
    }
}

/// The values of a sequence of decimals.
pub open spec fn dec_view(v: Seq<Decimal>) -> Seq<int> {
    Seq::new(v.len(), |i: int| v[i]@)
}

proof fn lemma_stake_sell_fold_none(invs: Seq<Investment>, change: int, n: int, m: int)
    requires
        0 <= n <= m,
        stake_sell_fold(invs, change, n) is None,
    ensures
        stake_sell_fold(invs, change, m) is None,
    decreases m,
{
    if n < m {
        lemma_stake_sell_fold_none(invs, change, n, m - 1);
    }
}

proof fn lemma_stake_sell_fold_len(invs: Seq<Investment>, change: int, n: int)
    requires
        0 <= n,
        stake_sell_fold(invs, change, n) is Some,
    ensures
        stake_sell_fold(invs, change, n).unwrap().len() == n,
    decreases n,
{
    if n > 0 {
        lemma_stake_sell_fold_len(invs, change, n - 1);
    }
}

proof fn lemma_staking_sells_len(invs: Seq<Investment>, st: int)
    requires
        staking_sells(invs, st) is Some,
    ensures
        staking_sells(invs, st).unwrap().len() == 0 || staking_sells(invs, st).unwrap().len()
            == invs.len(),
{
    let t = total_stake(invs);
    if t > 0 {
        let c1 = div_attos(one_attos(), t);
        let c2 = div_attos(one_attos(), t + st);
        lemma_stake_sell_fold_len(invs, c1 - c2, invs.len() as int);
    }
}

proof fn lemma_sale_fold_none(
    invs: Seq<Investment>,
    sells: Seq<int>,
    rems: Seq<Decimal>,
    n: int,
    m: int,
)
    requires
        0 <= n <= m,
        sale_fold(invs, sells, rems, n) is None,
    ensures
        sale_fold(invs, sells, rems, m) is None,
    decreases m,
{
    if n < m {
        lemma_sale_fold_none(invs, sells, rems, n, m - 1);
    }
}

proof fn lemma_sale_fold_shape(invs: Seq<Investment>, sells: Seq<int>, rems: Seq<Decimal>, n: int)
    requires
        0 <= n <= invs.len(),
        sale_fold(invs, sells, rems, n) is Some,
    ensures
        same_but_tokens(invs, sale_fold(invs, sells, rems, n).unwrap(), n),
    decreases n,
{
    if n > 0 {
        lemma_sale_fold_shape(invs, sells, rems, n - 1);
        let acc = sale_fold(invs, sells, rems, n - 1).unwrap();
        let t = sale_fold(invs, sells, rems, n).unwrap();
        assert forall|i: int| 0 <= i < n implies #[trigger] t[i] == (Investment {
            tokens: t[i].tokens,
            ..invs[i]
        }) by {
            if i < n - 1 {
                assert(t[i] == acc[i]);
            }
        }
    }
}

/// Computes `staking_sells`.
fn staking_sells_exec(invs: &Vec<Investment>, total: Decimal, st: Decimal) -> (r: Option<
    Vec<Decimal>,
>)
    requires
        total@ == total_stake(invs@),
    ensures
        r is Some <==> staking_sells(invs@, st@) is Some,
        r matches Some(v) ==> staking_sells(invs@, st@) == Some(dec_view(v@)),
{
    if total.le(Decimal::zero()) {
        let out: Vec<Decimal> = Vec::new();
        assert(dec_view(out@) =~= Seq::<int>::empty());
        return Some(out);
    }
    let tps = match total.checked_add(st) {
        Some(x) => x,
        None => {
            return None;
        },
    };
    let c1 = match Decimal::one().checked_div(total) {
        Some(x) => x,
        None => {
            return None;
        },
    };
    let c2 = match Decimal::one().checked_div(tps) {
        Some(x) => x,
        None => {
            return None;
        },
    };
    let ch = match c1.checked_sub(c2) {
        Some(x) => x,
        None => {
            return None;
        },
    };
    let n = invs.len();
    let mut out: Vec<Decimal> = Vec::new();
    assert(staking_sells(invs@, st@) == stake_sell_fold(invs@, ch@, n as int));
    assert(dec_view(out@) =~= Seq::<int>::empty());
    let mut i: usize = 0;
    while i < n
        invariant
            n == invs@.len(),
            0 <= i <= n,
            staking_sells(invs@, st@) == stake_sell_fold(invs@, ch@, n as int),
            stake_sell_fold(invs@, ch@, i as int) == Some(dec_view(out@)),
        decreases n - i,
    {
        let inv = invs[i];
        let y = match ch.checked_mul(inv.stake_pool) {
            Some(x) => match x.checked_mul(inv.tokens) {
                Some(y) => if y.lt(Decimal::zero()) || y.gt(inv.tokens) {
                    None
                } else {
                    Some(y)
                },
                None => None,
            },
            None => None,
        };
        match y {
            Some(y) => {
                let ghost before = out@;
                out.push(y);
                assert(dec_view(out@) =~= dec_view(before).push(y@));
            },
            None => {
                proof {
                    lemma_stake_sell_fold_none(invs@, ch@, i + 1, n as int);
                }
                return None;
            },
        }
        i = i + 1;
    }
    Some(out)
}

/// Computes `sale_fold` over all investments.
fn sale_round(invs: &Vec<Investment>, sells: &Vec<Decimal>, rems: &Vec<Decimal>) -> (r: Option<
    Vec<Investment>,
>)
    requires
        sells@.len() == invs@.len(),
        rems@.len() == invs@.len(),
    ensures
        r is Some <==> sale_fold(invs@, dec_view(sells@), rems@, invs@.len() as int) is Some,
        r matches Some(v) ==> sale_fold(invs@, dec_view(sells@), rems@, invs@.len() as int) == Some(
            v@,
        ),
{
    let n = invs.len();
    let mut out: Vec<Investment> = Vec::new();
    let mut i: usize = 0;
    while i < n
        invariant
            n == invs@.len() == sells@.len() == rems@.len(),
            0 <= i <= n,
            sale_fold(invs@, dec_view(sells@), rems@, i as int) == Some(out@),
        decreases n - i,
    {
        let inv = invs[i];
        let t = match inv.tokens.checked_sub(sells[i]) {
            Some(a) => a.checked_add(rems[i]),
            None => None,
        };
        match t {
            Some(t) => {
                out.push(Investment { tokens: t, ..inv });
            },
            None => {
                proof {
                    lemma_sale_fold_none(invs@, dec_view(sells@), rems@, i + 1, n as int);
                }
                return None;
            },
        }
        i = i + 1;
    }
    Some(out)
}

/// A copy of a list of investments.
fn copy_investments(v: &Vec<Investment>) -> (r: Vec<Investment>)
    ensures
        r@ == v@,
{
    let mut out: Vec<Investment> = Vec::new();
    let mut i: usize = 0;
    while i < v.len()
        invariant
            0 <= i <= v@.len(),
            out@ == v@.subrange(0, i as int),
        decreases v@.len() - i,
    {
        out.push(v[i]);
        i = i + 1;
        assert(out@ =~= v@.subrange(0, i as int));
    }
    assert(v@.subrange(0, v@.len() as int) =~= v@);
    out
}

/// The sale that processing the head of the unstaking queue in `epoch`
/// makes: the investment staked on and the tokens it sells (the stake over
/// the stake pool, times the holding); or why it cannot be processed.
pub open spec fn unstaking_sale_spec(f: Fund, epoch: u64) -> Result<(usize, int), FundError> {
    let q = f.unstaking_queue@;
    if q.len() == 0 || !is_due(q[0].epoch, f.auction_delay, epoch) {
        Err(FundError::NothingDue)
    } else if f.receipt(q[0].stake_receipt) is None {
        Err(FundError::InvalidReceipt)
    } else {
        let rc = f.receipt(q[0].stake_receipt).unwrap();
        let k = rc.investment;
        if k >= f.investments@.len() {
            Err(FundError::InvestmentNotFound)
        } else {
            let inv = f.investments@[k as int];
            let d = div_attos(rc.stake@, inv.stake_pool@);
            let sell = mul_attos(d, inv.tokens@);
            if inv.stake_pool@ == 0 || !in_range(d) || !in_range(sell) {
                Err(FundError::Arithmetic)
            } else if !(0 <= sell <= inv.tokens@) {
                Err(FundError::InsufficientTokens)
            } else {
                Ok((k, sell))
            }
        }
    }
}

/// The state after the sale of an unstaking step, whose outcome is `sale`
/// (`sale.0` denominator tokens received, `sale.1` tokens unsold): the
/// price obtained, the investments (the stake leaves its pool), the
/// reserve, and the total stake left.
pub open spec fn unstaking_after_sale(f: Fund, epoch: u64, sale: (Decimal, Decimal)) -> Result<
    (int, Seq<Investment>, int, int),
    FundError,
> {
    match unstaking_sale_spec(f, epoch) {
        Err(e) => Err(e),
        Ok(ks) => {
            let k = ks.0 as int;
            let sell = ks.1;
            let rc = f.receipt(f.unstaking_queue@[0].stake_receipt).unwrap();
            let st = rc.stake@;
            let inv = f.investments@[k];
            let sold = sell - sale.1@;
            let price = if sold > 0 {
                div_attos(sale.0@, sold)
            } else {
                0
            };
            let reserve = f.denominator_tokens@ + sale.0@;
            let tk = inv.tokens@ - sell + sale.1@;
            if !in_range(sold) || !in_range(price) || !in_range(reserve) || !in_range(tk) {
                Err(FundError::Arithmetic)
            } else if !(0 <= st <= inv.stake_pool@) {
                Err(FundError::InsufficientTokens)
            } else {
                let inv2 = Investment {
                    tokens: Decimal { attos: tk as i128 },
                    stake_pool: Decimal { attos: (inv.stake_pool@ - st) as i128 },
                    ..inv
                };
                Ok(
                    (
                        price,
                        f.investments@.update(k, inv2),
                        reserve,
                        total_stake(f.investments@) - st,
                    ),
                )
            }
        },
    }
}

/// The reward of an unstake of `st` fund tokens bought at `p0` and sold at
/// `price`: the fund tokens then returned to the holder's keeping, the
/// supply after, and the reward. Without a price there is none. A gain
/// mints `(1 - p0/price) * supply * rel * fee / 100` fund tokens for the
/// holder; a loss burns `(1 - price/p0)` of the stake.
pub open spec fn reward_spec(price: int, p0: int, st: int, supply: int, rel: int, fee: int) -> Option<
    (int, int, int),
> {
    if price == 0 {
        Some((st, supply, 0))
    } else if price > p0 {
        let a = div_attos(p0, price);
        let b = one_attos() - a;
        let c = mul_attos(b, supply);
        let d = mul_attos(c, rel);
        let e = mul_attos(d, fee);
        let m = div_attos(e, 100 * one_attos());
        if in_range(a) && in_range(b) && in_range(c) && in_range(d) && in_range(e) && in_range(m)
            && in_range(supply + m) && in_range(st + m) {
            Some((st + m, supply + m, m))
        } else {
            None
        }
    } else {
        let a = div_attos(price, p0);
        let b = one_attos() - a;
        let burn = mul_attos(b, st);
        if p0 != 0 && in_range(a) && in_range(b) && in_range(burn) && 0 <= burn <= st && in_range(
            supply - burn,
        ) {
            Some((st - burn, supply - burn, -burn))
        } else {
            None
        }
    }
}

/// Processing the head of the unstaking queue in `epoch`, given the
/// outcome of its sale and of the purchases of the buying round that
/// spends the sale's proceeds across the remaining stakers (`buys[i]`:
/// tokens bought and denominator tokens left, for investment `i`). Gives
/// the investments, the reserve, the kept fund tokens, the supply and the
/// head's receipt (now Unstaked, with its reward) afterwards.
pub open spec fn unstaking_step_spec(
    f: Fund,
    epoch: u64,
    sale: (Decimal, Decimal),
    buys: Seq<(Decimal, Decimal)>,
) -> Result<(Seq<Investment>, int, int, int, StakeReceipt), FundError> {
    match unstaking_after_sale(f, epoch, sale) {
        Err(e) => Err(e),
        Ok(a) => {
            let price = a.0;
            let invs = a.1;
            let reserve = a.2;
            let t = a.3;
            let rc = f.receipt(f.unstaking_queue@[0].stake_receipt).unwrap();
            if buys.len() != (if t > 0 {
                invs.len()
            } else {
                0
            }) {
                Err(FundError::OutcomeMismatch)
            } else {
                let round = if t > 0 {
                    match buy_fold(invs, sale.0@, t, reserve, buys, invs.len() as int) {
                        None => None,
                        Some(acc) => if in_range(div_attos(acc.2, t)) {
                            Some((acc.0, acc.1, div_attos(acc.2, t)))
                        } else {
                            None
                        },
                    }
                } else {
                    Some((invs, reserve, one_attos()))
                };
                match round {
                    None => Err(FundError::Arithmetic),
                    Some(rd) => match reward_spec(
                        price,
                        rc.price@,
                        rc.stake@,
                        f.supply@,
                        rd.2,
                        f.fee_percent@,
                    ) {
                        None => Err(FundError::Arithmetic),
                        Some(rw) => if !in_range(f.fund_tokens@ + rw.0) {
                            Err(FundError::Arithmetic)
                        } else {
                            Ok(
                                (
                                    rd.0,
                                    rd.1,
                                    f.fund_tokens@ + rw.0,
                                    rw.1,
                                    StakeReceipt {
                                        reward: Decimal { attos: rw.2 as i128 },
                                        status: Status::Unstaked,
                                        ..rc
                                    },
                                ),
                            )
                        },
                    },
                }
            }
        },
    }
}

/// The fund. Stake receipts are kept by id; a collected receipt is burned
/// (`None`).
#[derive(Clone, Debug)]
pub struct Fund {
    pub name: String,
    /// Whether the admin may still add investments.
    pub mutable: bool,
    /// The token the fund values everything in.
    pub denominator_token: u64,
    /// Percent of gained value paid to a staker, 0..=10.
    pub fee_percent: Decimal,
    /// Epochs a queued entry waits before it is processed.
    pub auction_delay: u64,
    /// Reserve of denominator tokens.
    pub denominator_tokens: Decimal,
    /// Fund tokens held for stakes not staked on an investment.
    pub fund_tokens: Decimal,
    /// Fund tokens in circulation.
    pub supply: Decimal,
    pub investments: Vec<Investment>,
    pub receipts: Vec<Option<StakeReceipt>>,
    pub staking_queue: Vec<Stake>,
    pub unstaking_queue: Vec<Unstake>,
}

impl Fund {
    /// Stake pools are non-negative and their total fits the decimal range.
    pub open spec fn wf(&self) -> bool {
        &&& stakes_nonneg(self.investments@)
        &&& in_range(total_stake(self.investments@))
    }

    /// The live receipt with id `id`, if any.
    pub open spec fn receipt(&self, id: u64) -> Option<StakeReceipt> {
        if id < self.receipts@.len() {
            self.receipts@[id as int]
        } else {
            None
        }
    }

    /// A fund with no investments; refused for an auction delay of at most
    /// one epoch or a fee percent outside 0..=10.
    pub fn new(name: String, denominator_token: u64, auction_delay: u64, fee_percent: Decimal) -> (r:
        Result<Fund, FundError>)
        ensures
            auction_delay <= 1 ==> r == Err::<Fund, FundError>(FundError::InvalidAuctionDelay),
            auction_delay > 1 && !(0 <= fee_percent@ <= 10 * one_attos()) ==> r == Err::<
                Fund,
                FundError,
            >(FundError::InvalidFeePercent),
            r is Ok <==> auction_delay > 1 && 0 <= fee_percent@ <= 10 * one_attos(),
            r matches Ok(f) ==> {
                &&& f.wf()
                &&& f.name@ == name@
                &&& f.mutable
                &&& f.denominator_token == denominator_token
                &&& f.fee_percent == fee_percent
                &&& f.auction_delay == auction_delay
                &&& f.denominator_tokens@ == 0 && f.fund_tokens@ == 0 && f.supply@ == 0
                &&& f.investments@.len() == 0 && f.receipts@.len() == 0
                &&& f.staking_queue@.len() == 0 && f.unstaking_queue@.len() == 0
            },
    {
        if auction_delay <= 1 {
            return Err(FundError::InvalidAuctionDelay);
        }
        if fee_percent.lt(Decimal::zero()) || fee_percent.gt(Decimal::from_u64(10)) {
            return Err(FundError::InvalidFeePercent);
        }
        Ok(Fund {
            name,
            mutable: true,
            denominator_token,
            fee_percent,
            auction_delay,
            denominator_tokens: Decimal::zero(),
            fund_tokens: Decimal::zero(),
            supply: Decimal::zero(),
            investments: Vec::new(),
            receipts: Vec::new(),
            staking_queue: Vec::new(),
            unstaking_queue: Vec::new(),
        })
    }

    /// Makes the fund immutable; refused when it already is.
    pub fn set_immutable(&mut self) -> (r: Result<(), FundError>)
        ensures
            r is Ok <==> old(self).mutable,
            r is Err ==> r == Err::<(), FundError>(FundError::NotMutable) && *final(self) == *old(
                self),
            r is Ok ==> *final(self) == (Fund { mutable: false, ..*old(self) }),
    {
        if !self.mutable {
            return Err(FundError::NotMutable);
        }
        self.mutable = false;
        Ok(())
    }

    /// Adds an investment trading through `amm_pool`, whose pair is
    /// `pair`; refused when the fund is immutable or the pair's second token
    /// is not the denominator token.
    pub fn add_investment(
        &mut self,
        amm_pool: u64,
        pair: (u64, u64),
        buy_auction: u64,
        sell_auction: u64,
    ) -> (r: Result<(), FundError>)
        requires
            old(self).wf(),
        ensures
            final(self).wf(),
            !old(self).mutable ==> r == Err::<(), FundError>(FundError::NotMutable),
            old(self).mutable && pair.1 != old(self).denominator_token ==> r == Err::<
                (),
                FundError,
            >(FundError::InvalidPair),
            r is Ok <==> old(self).mutable && pair.1 == old(self).denominator_token,
            r is Err ==> *final(self) == *old(self),
            r is Ok ==> *final(self) == (Fund {
                investments: final(self).investments,
                ..*old(self)
            }) && final(self).investments@ == old(self).investments@.push(
                Investment {
                    amm_pool,
                    token: pair.0,
                    tokens: Decimal { attos: 0 },
                    stake_pool: Decimal { attos: 0 },
                    buy_auction,
                    sell_auction,
                },
            ),
    {
        if !self.mutable {
            return Err(FundError::NotMutable);
        }
        if pair.1 != self.denominator_token {
            return Err(FundError::InvalidPair);
        }
        let inv = Investment {
            amm_pool,
            token: pair.0,
            tokens: Decimal::zero(),
            stake_pool: Decimal::zero(),
            buy_auction,
            sell_auction,
        };
        proof {
            lemma_stake_sum_push(self.investments@, inv, self.investments@.len() as int);
        }
        self.investments.push(inv);
        Ok(())
    }

    /// Fund tokens staked over all investments.
    pub fn get_total_stake(&self) -> (r: Decimal)
        requires
            self.wf(),
        ensures
            r@ == total_stake(self.investments@),
    {
        let mut sum = Decimal::zero();
        let mut i: usize = 0;
        while i < self.investments.len()
            invariant
                self.wf(),
                0 <= i <= self.investments@.len(),
                sum@ == stake_sum(self.investments@, i as int),
            decreases self.investments@.len() - i,
        {
            proof {
                lemma_stake_sum_mono(self.investments@, i + 1, self.investments@.len() as int);
            }
            sum = sum.add(self.investments[i].stake_pool);
            i = i + 1;
        }
        sum
    }
    /// Stakes `amount` fund tokens on investment `investment` in epoch
    /// `epoch`: the tokens are kept, a receipt in state Staking is issued
    /// and the stake is queued. Returns the receipt's id.
    pub fn stake(&mut self, amount: Decimal, investment: usize, epoch: u64) -> (r: Result<
        u64,
        FundError,
    >)
        requires
            old(self).wf(),
        ensures
            final(self).wf(),
            investment >= old(self).investments@.len() ==> r == Err::<u64, FundError>(
                FundError::InvestmentNotFound,
            ),
            investment < old(self).investments@.len() && amount@ <= 0 ==> r == Err::<
                u64,
                FundError,
            >(FundError::NonPositiveStake),
            investment < old(self).investments@.len() && amount@ > 0 && !in_range(
                old(self).fund_tokens@ + amount@,
            ) ==> r == Err::<u64, FundError>(FundError::Arithmetic),
            r is Ok <==> investment < old(self).investments@.len() && amount@ > 0 && in_range(
                old(self).fund_tokens@ + amount@,
            ),
            r is Err ==> *final(self) == *old(self),
            r matches Ok(id) ==> {
                &&& id == old(self).receipts@.len()
                &&& final(self).fund_tokens@ == old(self).fund_tokens@ + amount@
                &&& final(self).receipts@ == old(self).receipts@.push(
                    Some(
                        StakeReceipt {
                            investment,
                            stake: amount,
                            price: Decimal { attos: 0 },
                            reward: Decimal { attos: 0 },
                            status: Status::Staking,
                        },
                    ),
                )
                &&& final(self).staking_queue@ == old(self).staking_queue@.push(
                    Stake { epoch, stake_receipt: id },
                )
                &&& *final(self) == (Fund {
                    fund_tokens: final(self).fund_tokens,
                    receipts: final(self).receipts,
                    staking_queue: final(self).staking_queue,
                    ..*old(self)
                })
            },
    {
        if investment >= self.investments.len() {
            return Err(FundError::InvestmentNotFound);
        }
        if amount.le(Decimal::zero()) {
            return Err(FundError::NonPositiveStake);
        }
        let kept = match self.fund_tokens.checked_add(amount) {
            Some(k) => k,
            None => {
                return Err(FundError::Arithmetic);
            },
        };
        let id = self.receipts.len() as u64;
        self.fund_tokens = kept;
        self.receipts.push(
            Some(
                StakeReceipt {
                    investment,
                    stake: amount,
                    price: Decimal::zero(),
                    reward: Decimal::zero(),
                    status: Status::Staking,
                },
            ),
        );
        self.staking_queue.push(Stake { epoch, stake_receipt: id });
        Ok(id)
    }

    /// Starts unstaking the staked receipt `id` in epoch `epoch`: the
    /// receipt moves to Unstaking and the unstake is queued. Refused for a
    /// receipt that is not live or not in state Staked.
    pub fn unstake(&mut self, id: u64, epoch: u64) -> (r: Result<(), FundError>)
        ensures
            ({
                let rc = old(self).receipt(id);
                &&& rc is None ==> r == Err::<(), FundError>(FundError::InvalidReceipt)
                &&& rc matches Some(x) ==> (x.status == Status::Staking ==> r == Err::<
                    (),
                    FundError,
                >(FundError::CurrentlyStaking))
                &&& rc matches Some(x) ==> (x.status == Status::Unstaking ==> r == Err::<
                    (),
                    FundError,
                >(FundError::AlreadyUnstaking))
                &&& rc matches Some(x) ==> (x.status == Status::Unstaked ==> r == Err::<
                    (),
                    FundError,
                >(FundError::AlreadyUnstaked))
                &&& r is Ok <==> (rc matches Some(x) && x.status == Status::Staked)
                &&& r is Err ==> *final(self) == *old(self)
                &&& r is Ok ==> {
                    &&& final(self).receipts@ == old(self).receipts@.update(
                        id as int,
                        Some(StakeReceipt { status: Status::Unstaking, ..rc.unwrap() }),
                    )
                    &&& final(self).unstaking_queue@ == old(self).unstaking_queue@.push(
                        Unstake { epoch, stake_receipt: id },
                    )
                    &&& *final(self) == (Fund {
                        receipts: final(self).receipts,
                        unstaking_queue: final(self).unstaking_queue,
                        ..*old(self)
                    })
                }
            }),
    {
        if id >= self.receipts.len() as u64 {
            return Err(FundError::InvalidReceipt);
        }
        let idx = id as usize;
        let rc = match self.receipts[idx] {
            Some(x) => x,
            None => {
                return Err(FundError::InvalidReceipt);
            },
        };
        match rc.status {
            Status::Staking => Err(FundError::CurrentlyStaking),
            Status::Unstaking => Err(FundError::AlreadyUnstaking),
            Status::Unstaked => Err(FundError::AlreadyUnstaked),
            Status::Staked => {
                self.receipts.set(idx, Some(StakeReceipt { status: Status::Unstaking, ..rc }));
                self.unstaking_queue.push(Unstake { epoch, stake_receipt: id });
                Ok(())
            },
        }
    }

    /// Collects an unstaked receipt `id`: pays out its stake plus its
    /// reward from the kept fund tokens and burns the receipt. Refused for a
    /// receipt that is not live or not in state Unstaked, or a payout the
    /// kept tokens do not cover.
    pub fn collect_unstaked(&mut self, id: u64) -> (r: Result<Decimal, FundError>)
        ensures
            ({
                let rc = old(self).receipt(id);
                let pay = rc.unwrap().stake@ + rc.unwrap().reward@;
                &&& rc is None ==> r == Err::<Decimal, FundError>(FundError::InvalidReceipt)
                &&& rc matches Some(x) ==> (x.status == Status::Staking ==> r == Err::<
                    Decimal,
                    FundError,
                >(FundError::CurrentlyStaking))
                &&& rc matches Some(x) ==> (x.status == Status::Staked ==> r == Err::<
                    Decimal,
                    FundError,
                >(FundError::CurrentlyStaked))
                &&& rc matches Some(x) ==> (x.status == Status::Unstaking ==> r == Err::<
                    Decimal,
                    FundError,
                >(FundError::AlreadyUnstaking))
                &&& (rc matches Some(x) && x.status == Status::Unstaked && !(0 <= pay
                    <= old(self).fund_tokens@)) ==> r == Err::<Decimal, FundError>(
                    FundError::InsufficientTokens,
                )
                &&& r is Ok <==> (rc matches Some(x) && x.status == Status::Unstaked && 0 <= pay
                    <= old(self).fund_tokens@)
                &&& r is Err ==> *final(self) == *old(self)
                &&& r matches Ok(v) ==> {
                    &&& v@ == pay
                    &&& final(self).fund_tokens@ == old(self).fund_tokens@ - pay
                    &&& final(self).receipts@ == old(self).receipts@.update(id as int, None)
                    &&& *final(self) == (Fund {
                        fund_tokens: final(self).fund_tokens,
                        receipts: final(self).receipts,
                        ..*old(self)
                    })
                }
            }),
    {
        if id >= self.receipts.len() as u64 {
            return Err(FundError::InvalidReceipt);
        }
        let idx = id as usize;
        let rc = match self.receipts[idx] {
            Some(x) => x,
            None => {
                return Err(FundError::InvalidReceipt);
            },
        };
        match rc.status {
            Status::Staking => Err(FundError::CurrentlyStaking),
            Status::Staked => Err(FundError::CurrentlyStaked),
            Status::Unstaking => Err(FundError::AlreadyUnstaking),
            Status::Unstaked => {
                let pay = match rc.stake.checked_add(rc.reward) {
                    Some(p) => p,
                    None => {
                        return Err(FundError::InsufficientTokens);
                    },
                };
                if pay.lt(Decimal::zero()) || pay.gt(self.fund_tokens) {
                    return Err(FundError::InsufficientTokens);
                }
                self.fund_tokens = self.fund_tokens.sub(pay);
                self.receipts.set(idx, None);
                Ok(pay)
            },
        }
    }
    /// The swaps that minting for `amount` makes: the denominator tokens
    /// spent on each investment (zero where none are). All zero when no
    /// fund tokens circulate or nothing is staked.
    pub fn mint_plan(&self, amount: Decimal) -> (r: Result<Vec<Decimal>, FundError>)
        requires
            self.wf(),
        ensures
            ({
                let t = total_stake(self.investments@);
                let n = self.investments@.len() as int;
                let p = plan_fold(self.investments@, amount@, t, amount@, n);
                &&& (self.supply@ == 0 || t <= 0) ==> (r matches Ok(v) && v@.len() == n && forall|
                    i: int,
                | 0 <= i < n ==> #[trigger] v@[i]@ == 0)
                &&& (self.supply@ != 0 && t > 0) ==> (r is Ok <==> p is Some)
                &&& (self.supply@ != 0 && t > 0) ==> (r matches Ok(v) ==> v@.len() == n && forall|
                    i: int,
                | 0 <= i < n ==> #[trigger] v@[i]@ == p.unwrap().0[i])
                &&& r is Err ==> r == Err::<Vec<Decimal>, FundError>(FundError::Arithmetic)
            }),
    {
        let n = self.investments.len();
        let total = self.get_total_stake();
        let mut out: Vec<Decimal> = Vec::new();
        if self.supply.is_zero() || total.le(Decimal::zero()) {
            let mut i: usize = 0;
            while i < n
                invariant
                    0 <= i <= n,
                    out@.len() == i,
                    forall|j: int| 0 <= j < i ==> #[trigger] out@[j]@ == 0,
                decreases n - i,
            {
                out.push(Decimal::zero());
                i = i + 1;
            }
            return Ok(out);
        }
        let mut avail = amount;
        let mut i: usize = 0;
        while i < n
            invariant
                n == self.investments@.len(),
                0 <= i <= n,
                total@ == total_stake(self.investments@),
                self.supply@ != 0 && total@ > 0,
                plan_fold(self.investments@, amount@, total@, amount@, i as int) is Some,
                ({
                    let acc = plan_fold(self.investments@, amount@, total@, amount@, i as int).unwrap();
                    &&& acc.1 == avail@
                    &&& acc.0.len() == i
                    &&& out@.len() == i
                    &&& forall|j: int| 0 <= j < i ==> #[trigger] out@[j]@ == acc.0[j]
                }),
            decreases n - i,
        {
            let ghost acc = plan_fold(self.investments@, amount@, total@, amount@, i as int).unwrap();
            match buy_amount(amount, self.investments[i].stake_pool, total, avail) {
                None => {
                    proof {
                        lemma_plan_fold_none(
                            self.investments@,
                            amount@,
                            total@,
                            amount@,
                            i + 1,
                            n as int,
                        );
                    }
                    return Err(FundError::Arithmetic);
                },
                Some(b) => {
                    if b.gt(Decimal::zero()) {
                        out.push(b);
                        avail = avail.sub(b);
                    } else {
                        out.push(Decimal::zero());
                    }
                    proof {
                        let acc2 = plan_fold(
                            self.investments@,
                            amount@,
                            total@,
                            amount@,
                            i + 1,
                        ).unwrap();
                        assert(acc2.0 == acc.0.push(if b@ > 0 { b@ } else { 0 }));
                        assert forall|j: int| 0 <= j < i + 1 implies #[trigger] out@[j]@ == acc2.0[j] by {
                            if j < i {
                                assert(out@[j]@ == acc.0[j]);
                            }
                        }
                    }
                },
            }
            i = i + 1;
        }
        Ok(out)
    }

    /// Mints fund tokens for `amount` denominator tokens; `received[i]` is
    /// what investment `i`'s swap of its planned amount (see `mint_plan`)
    /// returned. Returns the fund tokens minted (see `mint_spec`).
    pub fn mint(&mut self, amount: Decimal, received: &Vec<Decimal>) -> (r: Result<
        Decimal,
        FundError,
    >)
        requires
            old(self).wf(),
            amount@ >= 0,
        ensures
            final(self).wf(),
            received@.len() != old(self).investments@.len() ==> r == Err::<Decimal, FundError>(
                FundError::OutcomeMismatch,
            ),
            received@.len() == old(self).investments@.len() ==> (r is Ok <==> mint_spec(
                *old(self),
                amount@,
                received@,
            ) is Some),
            received@.len() == old(self).investments@.len() && r is Err ==> r == Err::<
                Decimal,
                FundError,
            >(FundError::Arithmetic),
            r is Err ==> *final(self) == *old(self),
            r matches Ok(m) ==> {
                let sp = mint_spec(*old(self), amount@, received@).unwrap();
                &&& m@ == sp.2
                &&& final(self).investments@ == sp.0
                &&& final(self).denominator_tokens@ == sp.1
                &&& final(self).supply@ == old(self).supply@ + m@
                &&& *final(self) == (Fund {
                    investments: final(self).investments,
                    denominator_tokens: final(self).denominator_tokens,
                    supply: final(self).supply,
                    ..*old(self)
                })
            },
    {
        let n = self.investments.len();
        if received.len() != n {
            return Err(FundError::OutcomeMismatch);
        }
        if self.supply.is_zero() {
            match (self.denominator_tokens.checked_add(amount), self.supply.checked_add(amount)) {
                (Some(res), Some(sup)) => {
                    self.denominator_tokens = res;
                    self.supply = sup;
                    return Ok(amount);
                },
                _ => {
                    return Err(FundError::Arithmetic);
                },
            }
        }
        let total = self.get_total_stake();
        if total.gt(Decimal::zero()) {
            let mut outcomes: Vec<(Decimal, Decimal)> = Vec::new();
            let mut i: usize = 0;
            while i < n
                invariant
                    n == received@.len(),
                    0 <= i <= n,
                    outcomes@.len() == i,
                    forall|j: int|
                        0 <= j < i ==> #[trigger] outcomes@[j] == swap_outcomes(received@)[j],
                decreases n - i,
            {
                outcomes.push((received[i], Decimal::zero()));
                i = i + 1;
            }
            assert(outcomes@ =~= swap_outcomes(received@));
            match buy_round(&self.investments, amount, total, amount, &outcomes) {
                None => Err(FundError::Arithmetic),
                Some((invs, left, value)) => {
                    let rel = match value.checked_div(total) {
                        Some(x) => x,
                        None => {
                            return Err(FundError::Arithmetic);
                        },
                    };
                    let m = match self.supply.checked_mul(rel) {
                        Some(x) => x,
                        None => {
                            return Err(FundError::Arithmetic);
                        },
                    };
                    match (self.denominator_tokens.checked_add(left), self.supply.checked_add(m)) {
                        (Some(res), Some(sup)) => {
                            proof {
                                lemma_buy_fold_shape(
                                    self.investments@,
                                    amount@,
                                    total@,
                                    amount@,
                                    outcomes@,
                                    n as int,
                                );
                                assert forall|j: int| 0 <= j < n implies #[trigger] self.investments@[j].stake_pool == invs@[j].stake_pool by {
                                    assert(invs@[j] == (Investment { tokens: invs@[j].tokens, ..self.investments@[j] }));
                                }
                                lemma_stake_sum_same_pools(self.investments@, invs@, n as int);
                                assert forall|j: int| 0 <= j < invs@.len() implies #[trigger] invs@[j].stake_pool@ >= 0 by {
                                    assert(invs@[j] == (Investment { tokens: invs@[j].tokens, ..self.investments@[j] }));
                                    assert(self.investments@[j].stake_pool@ >= 0);
                                }
                            }
                            self.investments = invs;
                            self.denominator_tokens = res;
                            self.supply = sup;
                            Ok(m)
                        },
                        _ => Err(FundError::Arithmetic),
                    }
                },
            }
        } else {
            let rel = match amount.checked_div(self.denominator_tokens) {
                Some(x) => x,
                None => {
                    return Err(FundError::Arithmetic);
                },
            };
            let m = match self.supply.checked_mul(rel) {
                Some(x) => x,
                None => {
                    return Err(FundError::Arithmetic);
                },
            };
            match (self.denominator_tokens.checked_add(amount), self.supply.checked_add(m)) {
                (Some(res), Some(sup)) => {
                    self.denominator_tokens = res;
                    self.supply = sup;
                    Ok(m)
                },
                _ => Err(FundError::Arithmetic),
            }
        }
    }
    /// What redeeming `amount` fund tokens takes (see `redeem_shares`): the
    /// reserve tokens and the tokens of each investment.
    pub fn redeem_plan(&self, amount: Decimal) -> (r: Result<(Decimal, Vec<Decimal>), FundError>)
        ensures
            r is Ok <==> redeem_shares(*self, amount@) is Some,
            r is Err ==> r == Err::<(Decimal, Vec<Decimal>), FundError>(FundError::Arithmetic),
            r matches Ok(x) ==> {
                let sh = redeem_shares(*self, amount@).unwrap();
                &&& x.0@ == sh.1
                &&& x.1@.len() == sh.2.len() == self.investments@.len()
                &&& forall|i: int| 0 <= i < sh.2.len() ==> #[trigger] x.1@[i]@ == sh.2[i]
            },
    {
        if self.supply.is_zero() {
            return Err(FundError::Arithmetic);
        }
        let own = match amount.checked_div(self.supply) {
            Some(o) => o,
            None => {
                return Err(FundError::Arithmetic);
            },
        };
        let take = match self.denominator_tokens.checked_mul(own) {
            Some(t) => t,
            None => {
                return Err(FundError::Arithmetic);
            },
        };
        if take.lt(Decimal::zero()) || take.gt(self.denominator_tokens) {
            return Err(FundError::Arithmetic);
        }
        if self.supply.checked_sub(amount).is_none() {
            return Err(FundError::Arithmetic);
        }
        let n = self.investments.len();
        let mut sells: Vec<Decimal> = Vec::new();
        let mut i: usize = 0;
        while i < n
            invariant
                n == self.investments@.len(),
                0 <= i <= n,
                self.supply@ != 0,
                own@ == div_attos(amount@, self.supply@),
                take@ == mul_attos(self.denominator_tokens@, own@),
                0 <= take@ <= self.denominator_tokens@,
                in_range(self.supply@ - amount@),
                sell_fold(self.investments@, own@, i as int) is Some,
                sell_fold(self.investments@, own@, i as int).unwrap().len() == i,
                sells@.len() == i,
                forall|j: int|
                    0 <= j < i ==> #[trigger] sells@[j]@ == sell_fold(
                        self.investments@,
                        own@,
                        i as int,
                    ).unwrap()[j],
            decreases n - i,
        {
            let ghost acc = sell_fold(self.investments@, own@, i as int).unwrap();
            let t = self.investments[i].tokens;
            match t.checked_mul(own) {
                Some(x) => {
                    if x.lt(Decimal::zero()) || x.gt(t) {
                        proof {
                            lemma_sell_fold_none(self.investments@, own@, i + 1, n as int);
                        }
                        return Err(FundError::Arithmetic);
                    }
                    sells.push(x);
                    proof {
                        lemma_sell_fold_len(self.investments@, own@, i + 1);
                        let acc2 = sell_fold(self.investments@, own@, i + 1).unwrap();
                        assert(acc2 == acc.push(x@));
                        assert forall|j: int| 0 <= j < i + 1 implies #[trigger] sells@[j]@ == acc2[j] by {
                            if j < i {
                                assert(sells@[j]@ == acc[j]);
                            }
                        }
                    }
                },
                None => {
                    proof {
                        lemma_sell_fold_none(self.investments@, own@, i + 1, n as int);
                    }
                    return Err(FundError::Arithmetic);
                },
            }
            i = i + 1;
        }
        proof {
            lemma_sell_fold_len(self.investments@, own@, n as int);
        }
        Ok((take, sells))
    }

    /// Applies a redemption of `amount` fund tokens planned as `plan`.
    fn apply_redeem(&mut self, amount: Decimal, plan: &(Decimal, Vec<Decimal>))
        requires
            old(self).wf(),
            redeem_shares(*old(self), amount@) is Some,
            ({
                let sh = redeem_shares(*old(self), amount@).unwrap();
                &&& plan.0@ == sh.1
                &&& plan.1@.len() == sh.2.len() == old(self).investments@.len()
                &&& forall|i: int| 0 <= i < sh.2.len() ==> #[trigger] plan.1@[i]@ == sh.2[i]
            }),
        ensures
            final(self).wf(),
            ({
                let sh = redeem_shares(*old(self), amount@).unwrap();
                &&& final(self).denominator_tokens@ == old(self).denominator_tokens@ - sh.1
                &&& final(self).supply@ == old(self).supply@ - amount@
                &&& final(self).investments@ == apply_sells(old(self).investments@, sh.2)
                &&& *final(self) == (Fund {
                    investments: final(self).investments,
                    denominator_tokens: final(self).denominator_tokens,
                    supply: final(self).supply,
                    ..*old(self)
                })
            }),
    {
        let ghost sh = redeem_shares(*old(self), amount@).unwrap();
        let n = self.investments.len();
        let mut i: usize = 0;
        while i < n
            invariant
                n == self.investments@.len() == old(self).investments@.len(),
                0 <= i <= n,
                plan.1@.len() == sh.2.len() == n,
                forall|j: int| 0 <= j < n ==> #[trigger] plan.1@[j]@ == sh.2[j],
                sell_fold(old(self).investments@, sh.0, n as int) == Some(sh.2),
                forall|j: int|
                    0 <= j < i ==> #[trigger] self.investments@[j] == apply_sells(
                        old(self).investments@,
                        sh.2,
                    )[j],
                forall|j: int|
                    i <= j < n ==> #[trigger] self.investments@[j] == old(self).investments@[j],
                *self == (Fund { investments: self.investments, ..*old(self) }),
            decreases n - i,
        {
            proof {
                lemma_sell_fold_elem(old(self).investments@, sh.0, n as int, i as int);
            }
            let inv = self.investments[i];
            let x = plan.1[i];
            self.investments.set(i, Investment { tokens: inv.tokens.sub(x), ..inv });
            i = i + 1;
        }
        proof {
            assert(self.investments@ =~= apply_sells(old(self).investments@, sh.2));
            assert forall|j: int| 0 <= j < n implies #[trigger] old(self).investments@[j].stake_pool == self.investments@[j].stake_pool by {
                assert(self.investments@[j] == apply_sells(old(self).investments@, sh.2)[j]);
            }
            lemma_stake_sum_same_pools(old(self).investments@, self.investments@, n as int);
            assert forall|j: int| 0 <= j < n implies #[trigger] self.investments@[j].stake_pool@ >= 0 by {
                assert(self.investments@[j] == apply_sells(old(self).investments@, sh.2)[j]);
                assert(old(self).investments@[j].stake_pool@ >= 0);
            }
        }
        self.denominator_tokens = self.denominator_tokens.sub(plan.0);
        self.supply = self.supply.sub(amount);
    }

    /// Redeems `amount` fund tokens for tokens: returns the reserve tokens
    /// taken followed by the tokens taken from each investment.
    pub fn redeem_for_tokens(&mut self, amount: Decimal) -> (r: Result<Vec<Decimal>, FundError>)
        requires
            old(self).wf(),
        ensures
            final(self).wf(),
            r is Ok <==> redeem_shares(*old(self), amount@) is Some,
            r is Err ==> r == Err::<Vec<Decimal>, FundError>(FundError::Arithmetic) && *final(self)
                == *old(self),
            r matches Ok(v) ==> {
                let sh = redeem_shares(*old(self), amount@).unwrap();
                &&& v@.len() == sh.2.len() + 1
                &&& v@[0]@ == sh.1
                &&& forall|i: int| 0 <= i < sh.2.len() ==> #[trigger] v@[i + 1]@ == sh.2[i]
                &&& final(self).denominator_tokens@ == old(self).denominator_tokens@ - sh.1
                &&& final(self).supply@ == old(self).supply@ - amount@
                &&& final(self).investments@ == apply_sells(old(self).investments@, sh.2)
                &&& *final(self) == (Fund {
                    investments: final(self).investments,
                    denominator_tokens: final(self).denominator_tokens,
                    supply: final(self).supply,
                    ..*old(self)
                })
            },
    {
        let plan = match self.redeem_plan(amount) {
            Ok(p) => p,
            Err(e) => {
                return Err(e);
            },
        };
        self.apply_redeem(amount, &plan);
        let mut out: Vec<Decimal> = Vec::new();
        out.push(plan.0);
        let mut i: usize = 0;
        while i < plan.1.len()
            invariant
                0 <= i <= plan.1@.len(),
                out@.len() == i + 1,
                out@[0] == plan.0,
                forall|j: int| 0 <= j < i ==> #[trigger] out@[j + 1] == plan.1@[j],
            decreases plan.1@.len() - i,
        {
            out.push(plan.1[i]);
            i = i + 1;
        }
        Ok(out)
    }

    /// Redeems `amount` fund tokens for denominator tokens: the reserve's
    /// part plus what each investment's swap of its part (see
    /// `redeem_plan`) returned, `received[i]`.
    pub fn redeem(&mut self, amount: Decimal, received: &Vec<Decimal>) -> (r: Result<
        Decimal,
        FundError,
    >)
        requires
            old(self).wf(),
        ensures
            final(self).wf(),
            received@.len() != old(self).investments@.len() ==> r == Err::<Decimal, FundError>(
                FundError::OutcomeMismatch,
            ),
            received@.len() == old(self).investments@.len() ==> (r is Ok <==> redeem_shares(
                *old(self),
                amount@,
            ) is Some && sum_fold(
                received@,
                redeem_shares(*old(self), amount@).unwrap().1,
                received@.len() as int,
            ) is Some),
            received@.len() == old(self).investments@.len() && r is Err ==> r == Err::<
                Decimal,
                FundError,
            >(FundError::Arithmetic),
            r is Err ==> *final(self) == *old(self),
            r matches Ok(v) ==> {
                let sh = redeem_shares(*old(self), amount@).unwrap();
                &&& Some(v@) == sum_fold(received@, sh.1, received@.len() as int)
                &&& final(self).denominator_tokens@ == old(self).denominator_tokens@ - sh.1
                &&& final(self).supply@ == old(self).supply@ - amount@
                &&& final(self).investments@ == apply_sells(old(self).investments@, sh.2)
                &&& *final(self) == (Fund {
                    investments: final(self).investments,
                    denominator_tokens: final(self).denominator_tokens,
                    supply: final(self).supply,
                    ..*old(self)
                })
            },
    {
        if received.len() != self.investments.len() {
            return Err(FundError::OutcomeMismatch);
        }
        let plan = match self.redeem_plan(amount) {
            Ok(p) => p,
            Err(e) => {
                return Err(e);
            },
        };
        let total = match sum_amounts(received, plan.0) {
            Some(t) => t,
            None => {
                return Err(FundError::Arithmetic);
            },
        };
        self.apply_redeem(amount, &plan);
        Ok(total)
    }
    /// The sales that processing the head of the staking queue in `epoch`
    /// makes (see `staking_plan_spec`).
    pub fn staking_plan(&self, epoch: u64) -> (r: Result<Vec<Decimal>, FundError>)
        requires
            self.wf(),
        ensures
            r is Ok <==> staking_plan_spec(*self, epoch) is Ok,
            r matches Err(e) ==> staking_plan_spec(*self, epoch) == Err::<Seq<int>, FundError>(e),
            r matches Ok(v) ==> staking_plan_spec(*self, epoch) == Ok::<Seq<int>, FundError>(
                dec_view(v@),
            ),
    {
        if self.staking_queue.len() == 0 {
            return Err(FundError::NothingDue);
        }
        let head = self.staking_queue[0];
        if !(head.epoch < epoch && epoch - head.epoch > self.auction_delay) {
            return Err(FundError::NothingDue);
        }
        if head.stake_receipt >= self.receipts.len() as u64 {
            return Err(FundError::InvalidReceipt);
        }
        let rc = match self.receipts[head.stake_receipt as usize] {
            Some(x) => x,
            None => {
                return Err(FundError::InvalidReceipt);
            },
        };
        if rc.investment >= self.investments.len() {
            return Err(FundError::InvestmentNotFound);
        }
        let total = self.get_total_stake();
        match staking_sells_exec(&self.investments, total, rc.stake) {
            Some(v) => Ok(v),
            None => Err(FundError::Arithmetic),
        }
    }

    /// The denominator tokens the purchase of a staking step offers: the
    /// reserve plus the proceeds of the sales; `None` on overflow.
    pub fn staking_offer(&self, proceeds: &Vec<Decimal>) -> (r: Option<Decimal>)
        ensures
            r is Some <==> sum_fold(proceeds@, self.denominator_tokens@, proceeds@.len() as int) is Some,
            r matches Some(v) ==> sum_fold(
                proceeds@,
                self.denominator_tokens@,
                proceeds@.len() as int,
            ) == Some(v@),
    {
        sum_amounts(proceeds, self.denominator_tokens)
    }

    /// Processes the head of the staking queue in `epoch` (see
    /// `staking_step_spec`): `proceeds` and `rems` are the outcomes of the
    /// sales of `staking_plan`, `purchase` the outcome of offering
    /// `staking_offer` to the investment's buy auction. Returns the status
    /// the receipt moves to; the entry leaves the queue.
    pub fn process_staking_step(
        &mut self,
        epoch: u64,
        proceeds: &Vec<Decimal>,
        rems: &Vec<Decimal>,
        purchase: (Decimal, Decimal),
    ) -> (r: Result<Status, FundError>)
        requires
            old(self).wf(),
        ensures
            final(self).wf(),
            r is Ok <==> staking_step_spec(*old(self), epoch, proceeds@, rems@, purchase) is Ok,
            r matches Err(e) ==> staking_step_spec(*old(self), epoch, proceeds@, rems@, purchase)
                == Err::<(Seq<Investment>, int, int, StakeReceipt), FundError>(e) && *final(self)
                == *old(self),
            r matches Ok(status) ==> {
                let nx = staking_step_spec(*old(self), epoch, proceeds@, rems@, purchase).unwrap();
                let id = old(self).staking_queue@[0].stake_receipt;
                &&& status == nx.3.status
                &&& final(self).investments@ == nx.0
                &&& final(self).denominator_tokens@ == nx.1
                &&& final(self).fund_tokens@ == nx.2
                &&& final(self).receipts@ == old(self).receipts@.update(id as int, Some(nx.3))
                &&& final(self).staking_queue@ == old(self).staking_queue@.remove(0)
                &&& *final(self) == (Fund {
                    investments: final(self).investments,
                    denominator_tokens: final(self).denominator_tokens,
                    fund_tokens: final(self).fund_tokens,
                    receipts: final(self).receipts,
                    staking_queue: final(self).staking_queue,
                    ..*old(self)
                })
            },
    {
        let sells = match self.staking_plan(epoch) {
            Ok(v) => v,
            Err(e) => {
                return Err(e);
            },
        };
        if proceeds.len() != sells.len() || rems.len() != sells.len() {
            return Err(FundError::OutcomeMismatch);
        }
        let id = self.staking_queue[0].stake_receipt;
        proof {
            assert(self.receipt(id) is Some);
            let rc0 = self.receipt(id).unwrap();
            lemma_staking_sells_len(self.investments@, rc0.stake@);
        }
        let rlen = self.receipts.len();
        assert(id < rlen);
        let idx = id as usize;
        let rc = self.receipts[idx].unwrap();
        let k = rc.investment;
        let st = rc.stake;
        let invs2 = if sells.len() == 0 {
            copy_investments(&self.investments)
        } else {
            match sale_round(&self.investments, &sells, rems) {
                Some(v) => v,
                None => {
                    return Err(FundError::Arithmetic);
                },
            }
        };
        let offer = match sum_amounts(proceeds, self.denominator_tokens) {
            Some(o) => o,
            None => {
                return Err(FundError::Arithmetic);
            },
        };
        proof {
            if sells.len() != 0 {
                lemma_sale_fold_shape(
                    self.investments@,
                    dec_view(sells@),
                    rems@,
                    self.investments@.len() as int,
                );
            }
        }
        let bought = purchase.0;
        let spent = match offer.checked_sub(purchase.1) {
            Some(x) => x,
            None => {
                return Err(FundError::Arithmetic);
            },
        };
        let price = if bought.gt(Decimal::zero()) {
            match spent.checked_div(bought) {
                Some(x) => x,
                None => {
                    return Err(FundError::Arithmetic);
                },
            }
        } else {
            Decimal::zero()
        };
        let tk = match invs2[k].tokens.checked_add(bought) {
            Some(x) => x,
            None => {
                return Err(FundError::Arithmetic);
            },
        };
        let inv_k = Investment { tokens: tk, ..invs2[k] };
        let total = self.get_total_stake();
        let mut invs3 = invs2;
        if price.gt(Decimal::zero()) {
            if st.lt(Decimal::zero()) || st.gt(self.fund_tokens) {
                return Err(FundError::InsufficientTokens);
            }
            if total.checked_add(st).is_none() {
                return Err(FundError::Arithmetic);
            }
            proof {
                let n = self.investments@.len() as int;
                lemma_stake_sum_mono(self.investments@, k as int + 1, n);
                lemma_stake_sum_mono(self.investments@, k as int, k as int + 1);
                assert(invs3@[k as int] == (Investment { tokens: invs3@[k as int].tokens, ..self.investments@[k as int] }));
            }
            let inv_k2 = Investment { stake_pool: inv_k.stake_pool.add(st), ..inv_k };
            proof {
                let n = self.investments@.len() as int;
                assert forall|j: int| 0 <= j < n implies #[trigger] self.investments@[j].stake_pool == invs3@[j].stake_pool by {
                    assert(invs3@[j] == (Investment { tokens: invs3@[j].tokens, ..self.investments@[j] }));
                }
                lemma_stake_sum_same_pools(self.investments@, invs3@, n);
                lemma_stake_sum_update(invs3@, k as int, inv_k2, n);
                assert forall|j: int| 0 <= j < n implies #[trigger] invs3@.update(k as int, inv_k2)[j].stake_pool@ >= 0 by {
                    assert(invs3@[j] == (Investment { tokens: invs3@[j].tokens, ..self.investments@[j] }));
                    assert(self.investments@[j].stake_pool@ >= 0);
                }
            }
            invs3.set(k, inv_k2);
            let new_rc = StakeReceipt { status: Status::Staked, price, ..rc };
            self.investments = invs3;
            self.denominator_tokens = purchase.1;
            self.fund_tokens = self.fund_tokens.sub(st);
            self.receipts.set(idx, Some(new_rc));
            self.staking_queue.remove(0);
            Ok(Status::Staked)
        } else {
            proof {
                let n = self.investments@.len() as int;
                assert forall|j: int| 0 <= j < n implies #[trigger] self.investments@[j].stake_pool == invs3@.update(k as int, inv_k)[j].stake_pool by {
                    assert(invs3@[j] == (Investment { tokens: invs3@[j].tokens, ..self.investments@[j] }));
                }
                lemma_stake_sum_same_pools(self.investments@, invs3@.update(k as int, inv_k), n);
                assert forall|j: int| 0 <= j < n implies #[trigger] invs3@.update(k as int, inv_k)[j].stake_pool@ >= 0 by {
                    assert(invs3@[j] == (Investment { tokens: invs3@[j].tokens, ..self.investments@[j] }));
                    assert(self.investments@[j].stake_pool@ >= 0);
                }
            }
            invs3.set(k, inv_k);
            let new_rc = StakeReceipt { status: Status::Unstaked, ..rc };
            self.investments = invs3;
            self.denominator_tokens = purchase.1;
            self.receipts.set(idx, Some(new_rc));
            self.staking_queue.remove(0);
            Ok(Status::Unstaked)
        }
    }
    /// The sale that processing the head of the unstaking queue in `epoch`
    /// makes: the investment and the tokens it sells (see
    /// `unstaking_sale_spec`).
    pub fn unstaking_sale(&self, epoch: u64) -> (r: Result<(usize, Decimal), FundError>)
        requires
            self.wf(),
        ensures
            r is Ok <==> unstaking_sale_spec(*self, epoch) is Ok,
            r matches Err(e) ==> unstaking_sale_spec(*self, epoch) == Err::<(usize, int), FundError>(
                e,
            ),
            r matches Ok(x) ==> unstaking_sale_spec(*self, epoch) == Ok::<(usize, int), FundError>(
                (x.0, x.1@),
            ),
    {
        if self.unstaking_queue.len() == 0 {
            return Err(FundError::NothingDue);
        }
        let head = self.unstaking_queue[0];
        if !(head.epoch < epoch && epoch - head.epoch > self.auction_delay) {
            return Err(FundError::NothingDue);
        }
        let rlen = self.receipts.len();
        if head.stake_receipt >= rlen as u64 {
            return Err(FundError::InvalidReceipt);
        }
        let rc = match self.receipts[head.stake_receipt as usize] {
            Some(x) => x,
            None => {
                return Err(FundError::InvalidReceipt);
            },
        };
        let k = rc.investment;
        if k >= self.investments.len() {
            return Err(FundError::InvestmentNotFound);
        }
        let inv = self.investments[k];
        let d = match rc.stake.checked_div(inv.stake_pool) {
            Some(x) => x,
            None => {
                return Err(FundError::Arithmetic);
            },
        };
        let sell = match d.checked_mul(inv.tokens) {
            Some(x) => x,
            None => {
                return Err(FundError::Arithmetic);
            },
        };
        if sell.lt(Decimal::zero()) || sell.gt(inv.tokens) {
            return Err(FundError::InsufficientTokens);
        }
        Ok((k, sell))
    }

    /// The state after an unstaking sale with outcome `sale` (see
    /// `unstaking_after_sale`).
    fn after_sale(&self, epoch: u64, sale: (Decimal, Decimal)) -> (r: Result<
        (Decimal, Vec<Investment>, Decimal, Decimal),
        FundError,
    >)
        requires
            self.wf(),
        ensures
            r is Ok <==> unstaking_after_sale(*self, epoch, sale) is Ok,
            r matches Err(e) ==> unstaking_after_sale(*self, epoch, sale) == Err::<
                (int, Seq<Investment>, int, int),
                FundError,
            >(e),
            r matches Ok(x) ==> {
                &&& unstaking_after_sale(*self, epoch, sale) == Ok::<
                    (int, Seq<Investment>, int, int),
                    FundError,
                >((x.0@, x.1@, x.2@, x.3@))
                &&& stakes_nonneg(x.1@)
                &&& in_range(total_stake(x.1@))
                &&& x.3@ == total_stake(x.1@)
                &&& x.1@.len() == self.investments@.len()
            },
    {
        let (k, sell) = match self.unstaking_sale(epoch) {
            Ok(x) => x,
            Err(e) => {
                return Err(e);
            },
        };
        let id = self.unstaking_queue[0].stake_receipt;
        let rlen = self.receipts.len();
        proof {
            assert(self.receipt(id) is Some);
        }
        assert(id < rlen);
        let rc = self.receipts[id as usize].unwrap();
        let st = rc.stake;
        let inv = self.investments[k];
        let sold = match sell.checked_sub(sale.1) {
            Some(x) => x,
            None => {
                return Err(FundError::Arithmetic);
            },
        };
        let price = if sold.gt(Decimal::zero()) {
            match sale.0.checked_div(sold) {
                Some(x) => x,
                None => {
                    return Err(FundError::Arithmetic);
                },
            }
        } else {
            Decimal::zero()
        };
        let reserve = match self.denominator_tokens.checked_add(sale.0) {
            Some(x) => x,
            None => {
                return Err(FundError::Arithmetic);
            },
        };
        let tk = match inv.tokens.sub(sell).checked_add(sale.1) {
            Some(x) => x,
            None => {
                return Err(FundError::Arithmetic);
            },
        };
        if st.lt(Decimal::zero()) || st.gt(inv.stake_pool) {
            return Err(FundError::InsufficientTokens);
        }
        let inv2 = Investment { tokens: tk, stake_pool: inv.stake_pool.sub(st), ..inv };
        let mut invs = copy_investments(&self.investments);
        let total = self.get_total_stake();
        proof {
            let n = self.investments@.len() as int;
            lemma_stake_sum_update(self.investments@, k as int, inv2, n);
            lemma_stake_sum_mono(self.investments@, k as int + 1, n);
            lemma_stake_sum_mono(self.investments@, k as int, k as int + 1);
        }
        invs.set(k, inv2);
        let left = total.sub(st);
        Ok((price, invs, reserve, left))
    }

    /// The next purchase of the buying round of an unstaking step whose
    /// sale had outcome `sale`, after the purchases `prior` (for the first
    /// `prior.len()` investments): the denominator tokens to spend on
    /// investment `prior.len()`, or `None` when the round has no purchase
    /// left (no stakers remain, or every investment has had its turn).
    pub fn unstaking_next_buy(
        &self,
        epoch: u64,
        sale: (Decimal, Decimal),
        prior: &Vec<(Decimal, Decimal)>,
    ) -> (r: Result<Option<Decimal>, FundError>)
        requires
            self.wf(),
        ensures
            ({
                let a = unstaking_after_sale(*self, epoch, sale);
                let m = prior@.len() as int;
                &&& a matches Err(e) ==> r == Err::<Option<Decimal>, FundError>(e)
                &&& a matches Ok(x) ==> ((x.3 <= 0 || m >= x.1.len()) ==> r == Ok::<
                    Option<Decimal>,
                    FundError,
                >(None))
                &&& a matches Ok(x) ==> (x.3 > 0 && m < x.1.len() ==> {
                    let acc = buy_fold(x.1, sale.0@, x.3, x.2, prior@, m);
                    let b = buy_amount_spec(sale.0@, x.1[m].stake_pool@, x.3, acc.unwrap().1);
                    &&& (acc is None || b is None) <==> r == Err::<Option<Decimal>, FundError>(
                        FundError::Arithmetic,
                    )
                    &&& r matches Ok(Some(v)) ==> acc is Some && b == Some(v@)
                    &&& r is Ok ==> r matches Ok(Some(_))
                })
            }),
    {
        let (_price, invs, reserve, total) = match self.after_sale(epoch, sale) {
            Ok(x) => x,
            Err(e) => {
                return Err(e);
            },
        };
        if total.le(Decimal::zero()) || prior.len() >= invs.len() {
            return Ok(None);
        }
        match buy_round(&invs, sale.0, total, reserve, prior) {
            None => Err(FundError::Arithmetic),
            Some((_done, avail, _value)) => {
                match buy_amount(sale.0, invs[prior.len()].stake_pool, total, avail) {
                    Some(b) => Ok(Some(b)),
                    None => Err(FundError::Arithmetic),
                }
            },
        }
    }

    /// Processes the head of the unstaking queue in `epoch` (see
    /// `unstaking_step_spec`): `sale` is the outcome of auctioning the
    /// tokens of `unstaking_sale`, `buys[i]` the outcome of the purchase
    /// `unstaking_next_buy` gave for investment `i` (none when no stakers
    /// remain). Returns the receipt's reward; the entry leaves the queue.
    pub fn process_unstaking_step(
        &mut self,
        epoch: u64,
        sale: (Decimal, Decimal),
        buys: &Vec<(Decimal, Decimal)>,
    ) -> (r: Result<Decimal, FundError>)
        requires
            old(self).wf(),
        ensures
            final(self).wf(),
            r is Ok <==> unstaking_step_spec(*old(self), epoch, sale, buys@) is Ok,
            r matches Err(e) ==> unstaking_step_spec(*old(self), epoch, sale, buys@) == Err::<
                (Seq<Investment>, int, int, int, StakeReceipt),
                FundError,
            >(e) && *final(self) == *old(self),
            r matches Ok(reward) ==> {
                let nx = unstaking_step_spec(*old(self), epoch, sale, buys@).unwrap();
                let id = old(self).unstaking_queue@[0].stake_receipt;
                &&& reward == nx.4.reward
                &&& final(self).investments@ == nx.0
                &&& final(self).denominator_tokens@ == nx.1
                &&& final(self).fund_tokens@ == nx.2
                &&& final(self).supply@ == nx.3
                &&& final(self).receipts@ == old(self).receipts@.update(id as int, Some(nx.4))
                &&& final(self).unstaking_queue@ == old(self).unstaking_queue@.remove(0)
                &&& *final(self) == (Fund {
                    investments: final(self).investments,
                    denominator_tokens: final(self).denominator_tokens,
                    fund_tokens: final(self).fund_tokens,
                    supply: final(self).supply,
                    receipts: final(self).receipts,
                    unstaking_queue: final(self).unstaking_queue,
                    ..*old(self)
                })
            },
    {
        let (price, invs, reserve, total) = match self.after_sale(epoch, sale) {
            Ok(x) => x,
            Err(e) => {
                return Err(e);
            },
        };
        let id = self.unstaking_queue[0].stake_receipt;
        let rlen = self.receipts.len();
        proof {
            assert(self.receipt(id) is Some);
        }
        assert(id < rlen);
        let idx = id as usize;
        let rc = self.receipts[idx].unwrap();
        let expected = if total.gt(Decimal::zero()) {
            invs.len()
        } else {
            0
        };
        if buys.len() != expected {
            return Err(FundError::OutcomeMismatch);
        }
        let (invs2, reserve2, rel) = if total.gt(Decimal::zero()) {
            match buy_round(&invs, sale.0, total, reserve, buys) {
                None => {
                    return Err(FundError::Arithmetic);
                },
                Some((done, avail, value)) => match value.checked_div(total) {
                    Some(rel) => {
                        proof {
                            lemma_buy_fold_shape(invs@, sale.0@, total@, reserve@, buys@, invs@.len() as int);
                        }
                        (done, avail, rel)
                    },
                    None => {
                        return Err(FundError::Arithmetic);
                    },
                },
            }
        } else {
            (invs, reserve, Decimal::one())
        };
        let (bucket, supply, reward) = match self.reward(price, rc.price, rc.stake, rel) {
            Some(x) => x,
            None => {
                return Err(FundError::Arithmetic);
            },
        };
        let kept = match self.fund_tokens.checked_add(bucket) {
            Some(x) => x,
            None => {
                return Err(FundError::Arithmetic);
            },
        };
        proof {
            let n = invs2@.len() as int;
            assert forall|j: int| 0 <= j < n implies #[trigger] invs@[j].stake_pool == invs2@[j].stake_pool by {
                if total@ > 0 {
                    assert(invs2@[j] == (Investment { tokens: invs2@[j].tokens, ..invs@[j] }));
                }
            }
            lemma_stake_sum_same_pools(invs@, invs2@, n);
        }
        self.investments = invs2;
        self.denominator_tokens = reserve2;
        self.fund_tokens = kept;
        self.supply = supply;
        self.receipts.set(idx, Some(StakeReceipt { reward, status: Status::Unstaked, ..rc }));
        self.unstaking_queue.remove(0);
        Ok(reward)
    }

    /// Computes `reward_spec` with this fund's supply and fee.
    fn reward(&self, price: Decimal, p0: Decimal, st: Decimal, rel: Decimal) -> (r: Option<
        (Decimal, Decimal, Decimal),
    >)
        ensures
            r is Some <==> reward_spec(price@, p0@, st@, self.supply@, rel@, self.fee_percent@) is Some,
            r matches Some(x) ==> reward_spec(price@, p0@, st@, self.supply@, rel@, self.fee_percent@)
                == Some((x.0@, x.1@, x.2@)),
    {
        if price.is_zero() {
            return Some((st, self.supply, Decimal::zero()));
        }
        let one = Decimal::one();
        if price.gt(p0) {
            let a = match p0.checked_div(price) {
                Some(x) => x,
                None => {
                    return None;
                },
            };
            let b = match one.checked_sub(a) {
                Some(x) => x,
                None => {
                    return None;
                },
            };
            let c = match b.checked_mul(self.supply) {
                Some(x) => x,
                None => {
                    return None;
                },
            };
            let d = match c.checked_mul(rel) {
                Some(x) => x,
                None => {
                    return None;
                },
            };
            let e = match d.checked_mul(self.fee_percent) {
                Some(x) => x,
                None => {
                    return None;
                },
            };
            let m = match e.checked_div(Decimal::from_u64(100)) {
                Some(x) => x,
                None => {
                    return None;
                },
            };
            match (self.supply.checked_add(m), st.checked_add(m)) {
                (Some(sup), Some(bucket)) => Some((bucket, sup, m)),
                _ => None,
            }
        } else {
            let a = match price.checked_div(p0) {
                Some(x) => x,
                None => {
                    return None;
                },
            };
            let b = match one.checked_sub(a) {
                Some(x) => x,
                None => {
                    return None;
                },
            };
            let burn = match b.checked_mul(st) {
                Some(x) => x,
                None => {
                    return None;
                },
            };
            if burn.lt(Decimal::zero()) || burn.gt(st) {
                return None;
            }
            match self.supply.checked_sub(burn) {
                Some(sup) => Some((st.sub(burn), sup, burn.neg())),
                None => None,
            }
        }
    }
}

/// The sales of a staking round: each of the first `n` investments sells
/// `sells[i]` tokens into its sell auction in turn, auctions found by id in
/// `reg`. Gives the auctions after, what each sale brought in and what it
/// left unsold; or why a sale cannot be made.
pub open spec fn sell_round(reg: Seq<AuctionState>, invs: Seq<Investment>, sells: Seq<int>, n: int) -> Result<
    (Seq<AuctionState>, Seq<Decimal>, Seq<Decimal>),
    FundError,
>
    decreases n,
{
    if n <= 0 {
        Ok((reg, Seq::empty(), Seq::empty()))
    } else {
        match sell_round(reg, invs, sells, n - 1) {
            Err(e) => Err(e),
            Ok(acc) => {
                let id = invs[n - 1].sell_auction as int;
                if id >= acc.0.len() {
                    Err(FundError::UnknownAuction)
                } else if !can_auction(acc.0[id], sells[n - 1]) {
                    Err(FundError::Arithmetic)
                } else {
                    let o = auction_outcome(acc.0[id], sells[n - 1]);
                    Ok(
                        (
                            acc.0.update(id, auctioned(acc.0[id], sells[n - 1])),
                            acc.1.push(Decimal { attos: o.0 as i128 }),
                            acc.2.push(Decimal { attos: o.1 as i128 }),
                        ),
                    )
                }
            },
        }
    }
}

/// A whole staking round for the head of the staking queue, with the
/// auctions `reg` found by id: the sales of `staking_plan_spec` run
/// through the sell auctions, then the reserve and their proceeds are
/// offered to the buy auction of the investment staked on, and the step
/// of `staking_step_spec` applies those outcomes. Gives the auctions after
/// and the step's result; or why the round cannot be made.
pub open spec fn staking_round_result(f: Fund, reg: Seq<AuctionState>, epoch: u64) -> Result<
    (Seq<AuctionState>, (Seq<Investment>, int, int, StakeReceipt)),
    FundError,
> {
    match staking_plan_spec(f, epoch) {
        Err(e) => Err(e),
        Ok(sells) => match sell_round(reg, f.investments@, sells, sells.len() as int) {
            Err(e) => Err(e),
            Ok(acc) => match sum_fold(acc.1, f.denominator_tokens@, acc.1.len() as int) {
                None => Err(FundError::Arithmetic),
                Some(offer) => {
                    let rc = f.receipt(f.staking_queue@[0].stake_receipt).unwrap();
                    let id = f.investments@[rc.investment as int].buy_auction as int;
                    if id >= acc.0.len() {
                        Err(FundError::UnknownAuction)
                    } else if !can_auction(acc.0[id], offer) {
                        Err(FundError::Arithmetic)
                    } else {
                        let o = auction_outcome(acc.0[id], offer);
                        let purchase = (Decimal { attos: o.0 as i128 }, Decimal { attos: o.1 as i128 });
                        match staking_step_spec(f, epoch, acc.1, acc.2, purchase) {
                            Err(e) => Err(e),
                            Ok(nx) => Ok((acc.0.update(id, auctioned(acc.0[id], offer)), nx)),
                        }
                    }
                },
            },
        },
    }
}

/// `g` with auctions `reg2` is what a staking round makes of `f` with
/// auctions `reg` (see `staking_round_result`): the head leaves the queue,
/// its receipt is updated, and nothing else of the fund changes.
pub open spec fn staking_round_rel(f: Fund, reg: Seq<AuctionState>, epoch: u64, g: Fund, reg2: Seq<AuctionState>) -> bool {
    match staking_round_result(f, reg, epoch) {
        Err(_) => false,
        Ok(out) => {
            let nx = out.1;
            let id = f.staking_queue@[0].stake_receipt;
            &&& reg2 == out.0
            &&& g.investments@ == nx.0
            &&& g.denominator_tokens@ == nx.1
            &&& g.fund_tokens@ == nx.2
            &&& g.receipts@ == f.receipts@.update(id as int, Some(nx.3))
            &&& g.staking_queue@ == f.staking_queue@.remove(0)
            &&& g.unstaking_queue@ == f.unstaking_queue@
            &&& g.name == f.name && g.mutable == f.mutable && g.denominator_token
                == f.denominator_token && g.fee_percent == f.fee_percent && g.auction_delay
                == f.auction_delay && g.supply == f.supply
        },
    }
}

/// `fs` and `rs` trace `n` staking rounds: they start at `f0` with
/// auctions `r0`, end at `g` with auctions `reg2`, and each step is a
/// staking round (see `staking_round_rel`).
pub open spec fn staking_trace(
    fs: Seq<Fund>,
    rs: Seq<Seq<AuctionState>>,
    f0: Fund,
    r0: Seq<AuctionState>,
    epoch: u64,
    n: nat,
    g: Fund,
    reg2: Seq<AuctionState>,
) -> bool {
    &&& fs.len() == n + 1
    &&& rs.len() == n + 1
    &&& fs[0] == f0
    &&& rs[0] == r0
    &&& fs[n as int] == g
    &&& rs[n as int] == reg2
    &&& forall|i: int|
        0 <= i < n ==> #[trigger] staking_round_rel(fs[i], rs[i], epoch, fs[i + 1], rs[i + 1])
}

/// `g` with auctions `reg2` is what `n` staking rounds make of `f0` with
/// auctions `r0`.
pub open spec fn staking_rounds(f0: Fund, r0: Seq<AuctionState>, epoch: u64, n: nat, g: Fund, reg2: Seq<AuctionState>) -> bool {
    exists|fs: Seq<Fund>, rs: Seq<Seq<AuctionState>>|
        #[trigger] staking_trace(fs, rs, f0, r0, epoch, n, g, reg2)
}

/// The staking run from `f0` with auctions `r0` stops on `e`: after some
/// rounds it reaches a fund with an entry due whose round cannot be made,
/// for the reason `e`.
pub open spec fn staking_stops_with(f0: Fund, r0: Seq<AuctionState>, epoch: u64, e: FundError) -> bool {
    exists|n: nat, g: Fund, reg2: Seq<AuctionState>|
        #[trigger] staking_rounds(f0, r0, epoch, n, g, reg2) && staking_plan_spec(g, epoch)
            != Err::<Seq<int>, FundError>(FundError::NothingDue) && staking_round_result(g, reg2, epoch)
            == Err::<(Seq<AuctionState>, (Seq<Investment>, int, int, StakeReceipt)), FundError>(e)
}

/// Two funds hold the same values.
pub open spec fn same_fund(a: Fund, b: Fund) -> bool {
    &&& a.name == b.name
    &&& a.mutable == b.mutable
    &&& a.denominator_token == b.denominator_token
    &&& a.fee_percent == b.fee_percent
    &&& a.auction_delay == b.auction_delay
    &&& a.denominator_tokens == b.denominator_tokens
    &&& a.fund_tokens == b.fund_tokens
    &&& a.supply == b.supply
    &&& a.investments@ == b.investments@
    &&& a.receipts@ == b.receipts@
    &&& a.staking_queue@ == b.staking_queue@
    &&& a.unstaking_queue@ == b.unstaking_queue@
}

proof fn lemma_sell_round_err(reg: Seq<AuctionState>, invs: Seq<Investment>, sells: Seq<int>, m: int, n: int)
    requires
        0 <= m <= n,
        sell_round(reg, invs, sells, m) is Err,
    ensures
        sell_round(reg, invs, sells, n) == sell_round(reg, invs, sells, m),
    decreases n - m,
{
    if n > m {
        lemma_sell_round_err(reg, invs, sells, m, n - 1);
    }
}

proof fn lemma_sell_round_len(reg: Seq<AuctionState>, invs: Seq<Investment>, sells: Seq<int>, n: int)
    requires
        0 <= n,
        sell_round(reg, invs, sells, n) is Ok,
    ensures
        sell_round(reg, invs, sells, n).unwrap().0.len() == reg.len(),
        sell_round(reg, invs, sells, n).unwrap().1.len() == n,
        sell_round(reg, invs, sells, n).unwrap().2.len() == n,
    decreases n,
{
    if n > 0 {
        lemma_sell_round_len(reg, invs, sells, n - 1);
    }
}

proof fn lemma_states_wf(a: Seq<Auction>, b: Seq<Auction>)
    requires
        auction_states(a) == auction_states(b),
        all_wf(b),
    ensures
        all_wf(a),
{
    assert(auction_states(a).len() == a.len());
    assert(auction_states(b).len() == b.len());
    assert forall|i: int| 0 <= i < a.len() implies #[trigger] a[i].wf() by {
        assert(auction_states(a)[i] == auction_states(b)[i]);
        assert(b[i].wf());
    }
}

/// The purchases of an unstaking round over the first `n` investments:
/// each in turn offers what `buy_amount_spec` gives it (with the tokens
/// left after the purchases before it) to its buy auction, auctions found
/// by id in `reg`; an amount that is not positive buys nothing. Gives the
/// auctions after and each purchase's outcome; or why one cannot be made.
pub open spec fn buy_round_outcomes(
    reg: Seq<AuctionState>,
    invs: Seq<Investment>,
    base: int,
    total: int,
    avail0: int,
    n: int,
) -> Result<(Seq<AuctionState>, Seq<(Decimal, Decimal)>), FundError>
    decreases n,
{
    if n <= 0 {
        Ok((reg, Seq::empty()))
    } else {
        match buy_round_outcomes(reg, invs, base, total, avail0, n - 1) {
            Err(e) => Err(e),
            Ok(acc) => match buy_fold(invs, base, total, avail0, acc.1, n - 1) {
                None => Err(FundError::Arithmetic),
                Some(bf) => match buy_amount_spec(base, invs[n - 1].stake_pool@, total, bf.1) {
                    None => Err(FundError::Arithmetic),
                    Some(b) => if b <= 0 {
                        Ok((acc.0, acc.1.push((Decimal { attos: 0 }, Decimal { attos: 0 }))))
                    } else {
                        let id = invs[n - 1].buy_auction as int;
                        if id >= acc.0.len() {
                            Err(FundError::UnknownAuction)
                        } else if !can_auction(acc.0[id], b) {
                            Err(FundError::Arithmetic)
                        } else {
                            let o = auction_outcome(acc.0[id], b);
                            Ok(
                                (
                                    acc.0.update(id, auctioned(acc.0[id], b)),
                                    acc.1.push(
                                        (Decimal { attos: o.0 as i128 }, Decimal { attos: o.1 as i128 }),
                                    ),
                                ),
                            )
                        }
                    },
                },
            },
        }
    }
}

/// A whole unstaking round for the head of the unstaking queue, with the
/// auctions `reg` found by id: the sale of `unstaking_sale_spec` runs
/// through the sell auction of the investment staked on; when stakers
/// remain, the purchases of `buy_round_outcomes` spend its proceeds; and
/// the step of `unstaking_step_spec` applies those outcomes. Gives the
/// auctions after and the step's result; or why the round cannot be made.
pub open spec fn unstaking_round_result(f: Fund, reg: Seq<AuctionState>, epoch: u64) -> Result<
    (Seq<AuctionState>, (Seq<Investment>, int, int, int, StakeReceipt)),
    FundError,
> {
    match unstaking_sale_spec(f, epoch) {
        Err(e) => Err(e),
        Ok(ks) => {
            let sell = ks.1;
            let id = f.investments@[ks.0 as int].sell_auction as int;
            if id >= reg.len() {
                Err(FundError::UnknownAuction)
            } else if !can_auction(reg[id], sell) {
                Err(FundError::Arithmetic)
            } else {
                let o = auction_outcome(reg[id], sell);
                let sale = (Decimal { attos: o.0 as i128 }, Decimal { attos: o.1 as i128 });
                let reg1 = reg.update(id, auctioned(reg[id], sell));
                match unstaking_after_sale(f, epoch, sale) {
                    Err(e) => Err(e),
                    Ok(x) => {
                        let n = if x.3 > 0 {
                            x.1.len() as int
                        } else {
                            0
                        };
                        match buy_round_outcomes(reg1, x.1, sale.0@, x.3, x.2, n) {
                            Err(e) => Err(e),
                            Ok(b) => match unstaking_step_spec(f, epoch, sale, b.1) {
                                Err(e) => Err(e),
                                Ok(nx) => Ok((b.0, nx)),
                            },
                        }
                    },
                }
            }
        },
    }
}

/// `g` with auctions `reg2` is what an unstaking round makes of `f` with
/// auctions `reg` (see `unstaking_round_result`): the head leaves the
/// queue, its receipt is updated, and nothing else of the fund changes.
pub open spec fn unstaking_round_rel(f: Fund, reg: Seq<AuctionState>, epoch: u64, g: Fund, reg2: Seq<AuctionState>) -> bool {
    match unstaking_round_result(f, reg, epoch) {
        Err(_) => false,
        Ok(out) => {
            let nx = out.1;
            let id = f.unstaking_queue@[0].stake_receipt;
            &&& reg2 == out.0
            &&& g.investments@ == nx.0
            &&& g.denominator_tokens@ == nx.1
            &&& g.fund_tokens@ == nx.2
            &&& g.supply@ == nx.3
            &&& g.receipts@ == f.receipts@.update(id as int, Some(nx.4))
            &&& g.unstaking_queue@ == f.unstaking_queue@.remove(0)
            &&& g.staking_queue@ == f.staking_queue@
            &&& g.name == f.name && g.mutable == f.mutable && g.denominator_token
                == f.denominator_token && g.fee_percent == f.fee_percent && g.auction_delay
                == f.auction_delay
        },
    }
}

/// `fs` and `rs` trace `n` unstaking rounds from `f0` with auctions `r0`
/// to `g` with auctions `reg2`.
pub open spec fn unstaking_trace(
    fs: Seq<Fund>,
    rs: Seq<Seq<AuctionState>>,
    f0: Fund,
    r0: Seq<AuctionState>,
    epoch: u64,
    n: nat,
    g: Fund,
    reg2: Seq<AuctionState>,
) -> bool {
    &&& fs.len() == n + 1
    &&& rs.len() == n + 1
    &&& fs[0] == f0
    &&& rs[0] == r0
    &&& fs[n as int] == g
    &&& rs[n as int] == reg2
    &&& forall|i: int|
        0 <= i < n ==> #[trigger] unstaking_round_rel(fs[i], rs[i], epoch, fs[i + 1], rs[i + 1])
}

/// `g` with auctions `reg2` is what `n` unstaking rounds make of `f0` with
/// auctions `r0`.
pub open spec fn unstaking_rounds(f0: Fund, r0: Seq<AuctionState>, epoch: u64, n: nat, g: Fund, reg2: Seq<AuctionState>) -> bool {
    exists|fs: Seq<Fund>, rs: Seq<Seq<AuctionState>>|
        #[trigger] unstaking_trace(fs, rs, f0, r0, epoch, n, g, reg2)
}

/// The unstaking run from `f0` with auctions `r0` stops on `e`: after
/// some rounds it reaches a fund with an entry due whose round cannot be
/// made, for the reason `e`.
pub open spec fn unstaking_stops_with(f0: Fund, r0: Seq<AuctionState>, epoch: u64, e: FundError) -> bool {
    exists|n: nat, g: Fund, reg2: Seq<AuctionState>|
        #[trigger] unstaking_rounds(f0, r0, epoch, n, g, reg2) && unstaking_sale_spec(g, epoch)
            != Err::<(usize, int), FundError>(FundError::NothingDue) && unstaking_round_result(
            g,
            reg2,
            epoch,
        ) == Err::<(Seq<AuctionState>, (Seq<Investment>, int, int, int, StakeReceipt)), FundError>(e)
}

proof fn lemma_buy_round_err(
    reg: Seq<AuctionState>,
    invs: Seq<Investment>,
    base: int,
    total: int,
    avail0: int,
    m: int,
    n: int,
)
    requires
        0 <= m <= n,
        buy_round_outcomes(reg, invs, base, total, avail0, m) is Err,
    ensures
        buy_round_outcomes(reg, invs, base, total, avail0, n) == buy_round_outcomes(reg, invs, base, total, avail0, m),
    decreases n - m,
{
    if n > m {
        lemma_buy_round_err(reg, invs, base, total, avail0, m, n - 1);
    }
}

proof fn lemma_buy_round_len(reg: Seq<AuctionState>, invs: Seq<Investment>, base: int, total: int, avail0: int, n: int)
    requires
        0 <= n,
        buy_round_outcomes(reg, invs, base, total, avail0, n) is Ok,
    ensures
        buy_round_outcomes(reg, invs, base, total, avail0, n).unwrap().0.len() == reg.len(),
        buy_round_outcomes(reg, invs, base, total, avail0, n).unwrap().1.len() == n,
    decreases n,
{
    if n > 0 {
        lemma_buy_round_len(reg, invs, base, total, avail0, n - 1);
    }
}

/// Runs the purchases of an unstaking round (see `buy_round_outcomes`).
/// On an error the auctions may have changed.
fn run_buys(
    invs: &Vec<Investment>,
    base: Decimal,
    total: Decimal,
    avail0: Decimal,
    auctions: &mut Vec<Auction>,
) -> (r: Result<Vec<(Decimal, Decimal)>, FundError>)
    requires
        all_wf(old(auctions)@),
    ensures
        all_wf(final(auctions)@),
        match buy_round_outcomes(
            auction_states(old(auctions)@),
            invs@,
            base@,
            total@,
            avail0@,
            invs@.len() as int,
        ) {
            Err(e) => r == Err::<Vec<(Decimal, Decimal)>, FundError>(e),
            Ok(acc) => r matches Ok(p) && p@ == acc.1 && auction_states(final(auctions)@) == acc.0,
        },
{
    let ghost r0 = auction_states(auctions@);
    let mut outcomes: Vec<(Decimal, Decimal)> = Vec::new();
    let mut i: usize = 0;
    while i < invs.len()
        invariant
            all_wf(auctions@),
            0 <= i <= invs@.len(),
            r0 == auction_states(old(auctions)@),
            buy_round_outcomes(r0, invs@, base@, total@, avail0@, i as int) == Ok::<
                (Seq<AuctionState>, Seq<(Decimal, Decimal)>),
                FundError,
            >((auction_states(auctions@), outcomes@)),
        decreases invs@.len() - i,
    {
        proof {
            lemma_buy_round_len(r0, invs@, base@, total@, avail0@, i as int);
        }
        let avail = match buy_round(invs, base, total, avail0, &outcomes) {
            Some(x) => x.1,
            None => {
                proof {
                    lemma_buy_round_err(r0, invs@, base@, total@, avail0@, i + 1, invs@.len() as int);
                }
                return Err(FundError::Arithmetic);
            },
        };
        let b = match buy_amount(base, invs[i].stake_pool, total, avail) {
            Some(b) => b,
            None => {
                proof {
                    lemma_buy_round_err(r0, invs@, base@, total@, avail0@, i + 1, invs@.len() as int);
                }
                return Err(FundError::Arithmetic);
            },
        };
        if b.le(Decimal::zero()) {
            outcomes.push((Decimal::zero(), Decimal::zero()));
        } else {
            let id = invs[i].buy_auction;
            if id >= auctions.len() as u64 {
                proof {
                    lemma_buy_round_err(r0, invs@, base@, total@, avail0@, i + 1, invs@.len() as int);
                }
                return Err(FundError::UnknownAuction);
            }
            let k = id as usize;
            let ghost before = auctions@;
            assert(before[k as int].wf());
            assert(auction_states(before)[k as int] == crate::auction::auction_state(before[k as int]));
            match auctions[k].try_auction(b) {
                None => {
                    proof {
                        lemma_buy_round_err(r0, invs@, base@, total@, avail0@, i + 1, invs@.len() as int);
                    }
                    return Err(FundError::Arithmetic);
                },
                Some(x) => {
                    proof {
                        assert(auction_states(auctions@) =~= auction_states(before).update(
                            k as int,
                            auctioned(auction_states(before)[k as int], b@),
                        ));
                        assert forall|j: int| 0 <= j < auctions@.len() implies #[trigger] auctions@[j].wf() by {
                            if j != k {
                                assert(auctions@[j] == before[j]);
                            }
                        }
                    }
                    outcomes.push(x);
                },
            }
        }
        i = i + 1;
    }
    Ok(outcomes)
}

/// Every pool of a list is well formed.
pub open spec fn pools_wf(p: Seq<Pool>) -> bool {
    forall|i: int| 0 <= i < p.len() ==> #[trigger] p[i].wf()
}

/// The swaps of a minting (`selling` false) or redeeming (`selling` true)
/// round over the first `n` investments, pools found by id in `pools`:
/// investment `i` swaps `amounts[i]` of the denominator token when buying
/// (an amount that is not positive swaps nothing) or of its own token when
/// selling. Gives the pools after and the tokens each swap paid out; or
/// why a swap cannot be made.
pub open spec fn pool_swaps(
    pools: Seq<Pool>,
    invs: Seq<Investment>,
    denom: u64,
    amounts: Seq<int>,
    selling: bool,
    n: int,
) -> Result<(Seq<Pool>, Seq<Decimal>), FundError>
    decreases n,
{
    if n <= 0 {
        Ok((pools, Seq::empty()))
    } else {
        match pool_swaps(pools, invs, denom, amounts, selling, n - 1) {
            Err(e) => Err(e),
            Ok(acc) => {
                let a = amounts[n - 1];
                let token = if selling {
                    invs[n - 1].token
                } else {
                    denom
                };
                let id = invs[n - 1].amm_pool as int;
                if !selling && a <= 0 {
                    Ok((acc.0, acc.1.push(Decimal { attos: 0 })))
                } else if id >= acc.0.len() {
                    Err(FundError::UnknownPool)
                } else if !can_swap(acc.0[id], token, a) {
                    Err(FundError::Arithmetic)
                } else {
                    let sw = swapped(acc.0[id], token, a);
                    Ok((acc.0.update(id, sw.0), acc.1.push(Decimal { attos: sw.1 as i128 })))
                }
            },
        }
    }
}

/// What minting for `amount` spends on each investment's swap: nothing
/// when no fund tokens circulate or nothing is staked, otherwise the
/// amounts of `plan_fold`; `None` on overflow.
pub open spec fn mint_amounts(f: Fund, amount: int) -> Option<Seq<int>> {
    let t = total_stake(f.investments@);
    let n = f.investments@.len() as int;
    if f.supply@ == 0 || t <= 0 {
        Some(Seq::new(n as nat, |i: int| 0int))
    } else {
        match plan_fold(f.investments@, amount, t, amount, n) {
            None => None,
            Some(p) => Some(p.0),
        }
    }
}

/// The swaps minting for `amount` makes through the pools (see
/// `pool_swaps`).
pub open spec fn mint_pools_result(f: Fund, pools: Seq<Pool>, amount: int) -> Result<
    (Seq<Pool>, Seq<Decimal>),
    FundError,
> {
    match mint_amounts(f, amount) {
        None => Err(FundError::Arithmetic),
        Some(a) => pool_swaps(pools, f.investments@, f.denominator_token, a, false, f.investments@.len() as int),
    }
}

/// The swaps redeeming `amount` fund tokens makes through the pools: each
/// investment sells its share (see `redeem_shares`).
pub open spec fn redeem_pools_result(f: Fund, pools: Seq<Pool>, amount: int) -> Result<
    (Seq<Pool>, Seq<Decimal>),
    FundError,
> {
    match redeem_shares(f, amount) {
        None => Err(FundError::Arithmetic),
        Some(sh) => pool_swaps(pools, f.investments@, f.denominator_token, sh.2, true, f.investments@.len() as int),
    }
}

proof fn lemma_pool_swaps_err(
    pools: Seq<Pool>,
    invs: Seq<Investment>,
    denom: u64,
    amounts: Seq<int>,
    selling: bool,
    m: int,
    n: int,
)
    requires
        0 <= m <= n,
        pool_swaps(pools, invs, denom, amounts, selling, m) is Err,
    ensures
        pool_swaps(pools, invs, denom, amounts, selling, n) == pool_swaps(pools, invs, denom, amounts, selling, m),
    decreases n - m,
{
    if n > m {
        lemma_pool_swaps_err(pools, invs, denom, amounts, selling, m, n - 1);
    }
}

proof fn lemma_pool_swaps_len(pools: Seq<Pool>, invs: Seq<Investment>, denom: u64, amounts: Seq<int>, selling: bool, n: int)
    requires
        0 <= n,
        pool_swaps(pools, invs, denom, amounts, selling, n) is Ok,
    ensures
        pool_swaps(pools, invs, denom, amounts, selling, n).unwrap().0.len() == pools.len(),
        pool_swaps(pools, invs, denom, amounts, selling, n).unwrap().1.len() == n,
    decreases n,
{
    if n > 0 {
        lemma_pool_swaps_len(pools, invs, denom, amounts, selling, n - 1);
    }
}

/// Runs the swaps of `pool_swaps`. On an error the pools may have changed.
fn run_pool_swaps(
    invs: &Vec<Investment>,
    denom: u64,
    amounts: &Vec<Decimal>,
    selling: bool,
    pools: &mut Vec<Pool>,
) -> (r: Result<Vec<Decimal>, FundError>)
    requires
        pools_wf(old(pools)@),
        amounts@.len() <= invs@.len(),
    ensures
        pools_wf(final(pools)@),
        match pool_swaps(old(pools)@, invs@, denom, dec_view(amounts@), selling, amounts@.len() as int) {
            Err(e) => r == Err::<Vec<Decimal>, FundError>(e),
            Ok(acc) => r matches Ok(v) && v@ == acc.1 && final(pools)@ == acc.0,
        },
{
    let ghost p0 = pools@;
    let ghost av = dec_view(amounts@);
    let mut out: Vec<Decimal> = Vec::new();
    let mut i: usize = 0;
    while i < amounts.len()
        invariant
            pools_wf(pools@),
            0 <= i <= amounts@.len(),
            amounts@.len() <= invs@.len(),
            av == dec_view(amounts@),
            p0 == old(pools)@,
            pool_swaps(p0, invs@, denom, av, selling, i as int) == Ok::<(Seq<Pool>, Seq<Decimal>), FundError>(
                (pools@, out@),
            ),
        decreases amounts@.len() - i,
    {
        proof {
            lemma_pool_swaps_len(p0, invs@, denom, av, selling, i as int);
        }
        let a = amounts[i];
        let inv = invs[i];
        let token = if selling {
            inv.token
        } else {
            denom
        };
        if !selling && a.le(Decimal::zero()) {
            out.push(Decimal::zero());
        } else {
            if inv.amm_pool >= pools.len() as u64 {
                proof {
                    lemma_pool_swaps_err(p0, invs@, denom, av, selling, i + 1, amounts@.len() as int);
                }
                return Err(FundError::UnknownPool);
            }
            let k = inv.amm_pool as usize;
            let mut pool = pools[k];
            match pool.try_swap(token, a) {
                None => {
                    proof {
                        lemma_pool_swaps_err(p0, invs@, denom, av, selling, i + 1, amounts@.len() as int);
                    }
                    return Err(FundError::Arithmetic);
                },
                Some(got) => {
                    let ghost before = pools@;
                    pools.set(k, pool);
                    proof {
                        assert forall|j: int| 0 <= j < pools@.len() implies #[trigger] pools@[j].wf() by {
                            if j != k {
                                assert(pools@[j] == before[j]);
                            }
                        }
                    }
                    out.push(got);
                },
            }
        }
        i = i + 1;
    }
    Ok(out)
}

/// A copy of a vector of plain values.
fn copy_vec<T: Copy>(v: &Vec<T>) -> (r: Vec<T>)
    ensures
        r@ == v@,
{
    let mut out: Vec<T> = Vec::new();
    let mut i: usize = 0;
    while i < v.len()
        invariant
            0 <= i <= v@.len(),
            out@ == v@.take(i as int),
        decreases v@.len() - i,
    {
        out.push(v[i]);
        i = i + 1;
        assert(out@ =~= v@.take(i as int));
    }
    assert(v@.take(v@.len() as int) =~= v@);
    out
}

/// Runs the sales of a staking round (see `sell_round`). On an error the
/// auctions may have changed.
fn run_sells(invs: &Vec<Investment>, sells: &Vec<Decimal>, auctions: &mut Vec<Auction>) -> (r: Result<
    (Vec<Decimal>, Vec<Decimal>),
    FundError,
>)
    requires
        all_wf(old(auctions)@),
        sells@.len() <= invs@.len(),
    ensures
        all_wf(final(auctions)@),
        match sell_round(auction_states(old(auctions)@), invs@, dec_view(sells@), sells@.len() as int) {
            Err(e) => r == Err::<(Vec<Decimal>, Vec<Decimal>), FundError>(e),
            Ok(acc) => r matches Ok(p) && p.0@ == acc.1 && p.1@ == acc.2 && auction_states(
                final(auctions)@,
            ) == acc.0,
        },
{
    let ghost r0 = auction_states(auctions@);
    let ghost sv = dec_view(sells@);
    let mut proceeds: Vec<Decimal> = Vec::new();
    let mut rems: Vec<Decimal> = Vec::new();
    let mut i: usize = 0;
    assert(auction_states(auctions@) =~= r0);
    while i < sells.len()
        invariant
            all_wf(auctions@),
            0 <= i <= sells@.len(),
            sells@.len() <= invs@.len(),
            sv == dec_view(sells@),
            r0 == auction_states(old(auctions)@),
            sell_round(r0, invs@, sv, i as int) == Ok::<
                (Seq<AuctionState>, Seq<Decimal>, Seq<Decimal>),
                FundError,
            >((auction_states(auctions@), proceeds@, rems@)),
        decreases sells@.len() - i,
    {
        let id = invs[i].sell_auction;
        proof {
            lemma_sell_round_len(r0, invs@, sv, i as int);
        }
        if id >= auctions.len() as u64 {
            proof {
                lemma_sell_round_err(r0, invs@, sv, i + 1, sells@.len() as int);
            }
            return Err(FundError::UnknownAuction);
        }
        let k = id as usize;
        let ghost before = auctions@;
        assert(before[k as int].wf());
        assert(auction_states(before)[k as int] == crate::auction::auction_state(before[k as int]));
        let res = auctions[k].try_auction(sells[i]);
        match res {
            None => {
                proof {
                    lemma_sell_round_err(r0, invs@, sv, i + 1, sells@.len() as int);
                }
                return Err(FundError::Arithmetic);
            },
            Some(x) => {
                proof {
                    assert(auction_states(auctions@) =~= auction_states(before).update(
                        k as int,
                        auctioned(auction_states(before)[k as int], sv[i as int]),
                    ));
                    assert forall|j: int| 0 <= j < auctions@.len() implies #[trigger] auctions@[j].wf() by {
                        if j != k {
                            assert(auctions@[j] == before[j]);
                        }
                    }
                }
                proceeds.push(x.0);
                rems.push(x.1);
                i = i + 1;
            },
        }
    }
    Ok((proceeds, rems))
}

impl Fund {
    /// A copy of the fund, holding the same values.
    pub fn duplicate(&self) -> (r: Fund)
        ensures
            same_fund(r, *self),
    {
        Fund {
            name: self.name.clone(),
            mutable: self.mutable,
            denominator_token: self.denominator_token,
            fee_percent: self.fee_percent,
            auction_delay: self.auction_delay,
            denominator_tokens: self.denominator_tokens,
            fund_tokens: self.fund_tokens,
            supply: self.supply,
            investments: copy_vec(&self.investments),
            receipts: copy_vec(&self.receipts),
            staking_queue: copy_vec(&self.staking_queue),
            unstaking_queue: copy_vec(&self.unstaking_queue),
        }
    }

    /// Processes the head of the staking queue in `epoch` against the
    /// auctions, which are found by id (see `staking_round_result`): its
    /// sales, its purchase, and the step. Returns the status the receipt
    /// moves to. Refused, with the fund and the auctions unchanged, when the
    /// round cannot be made.
    pub fn process_staking_round(&mut self, epoch: u64, auctions: &mut Vec<Auction>) -> (r: Result<
        Status,
        FundError,
    >)
        requires
            old(self).wf(),
            all_wf(old(auctions)@),
        ensures
            final(self).wf(),
            all_wf(final(auctions)@),
            r is Ok <==> staking_round_result(*old(self), auction_states(old(auctions)@), epoch) is Ok,
            r matches Err(e) ==> staking_round_result(*old(self), auction_states(old(auctions)@), epoch)
                == Err::<(Seq<AuctionState>, (Seq<Investment>, int, int, StakeReceipt)), FundError>(e)
                && *final(self) == *old(self) && auction_states(final(auctions)@) == auction_states(
                old(auctions)@,
            ),
            r matches Ok(status) ==> status == staking_round_result(
                *old(self),
                auction_states(old(auctions)@),
                epoch,
            ).unwrap().1.3.status && staking_round_rel(
                *old(self),
                auction_states(old(auctions)@),
                epoch,
                *final(self),
                auction_states(final(auctions)@),
            ),
    {
        let ghost f0 = *self;
        let ghost r0 = auction_states(auctions@);
        let sells = match self.staking_plan(epoch) {
            Ok(v) => v,
            Err(e) => {
                return Err(e);
            },
        };
        proof {
            let rc0 = self.receipt(self.staking_queue@[0].stake_receipt).unwrap();
            lemma_staking_sells_len(self.investments@, rc0.stake@);
        }
        let saved = copy_auctions(auctions);
        proof {
            lemma_states_wf(saved@, auctions@);
        }
        let (proceeds, rems) = match run_sells(&self.investments, &sells, auctions) {
            Ok(p) => p,
            Err(e) => {
                *auctions = saved;
                return Err(e);
            },
        };
        let ghost acc = sell_round(r0, self.investments@, dec_view(sells@), sells@.len() as int).unwrap();
        proof {
            lemma_sell_round_len(r0, self.investments@, dec_view(sells@), sells@.len() as int);
        }
        let offer = match self.staking_offer(&proceeds) {
            Some(o) => o,
            None => {
                *auctions = saved;
                return Err(FundError::Arithmetic);
            },
        };
        let head = self.staking_queue[0];
        assert(self.receipt(head.stake_receipt) is Some);
        let rlen = self.receipts.len();
        assert(head.stake_receipt < rlen);
        let idx = head.stake_receipt as usize;
        let rc = self.receipts[idx].unwrap();
        let id = self.investments[rc.investment].buy_auction;
        if id >= auctions.len() as u64 {
            *auctions = saved;
            return Err(FundError::UnknownAuction);
        }
        let k = id as usize;
        let ghost mid = auctions@;
        assert(mid[k as int].wf());
        assert(auction_states(mid)[k as int] == crate::auction::auction_state(mid[k as int]));
        let purchase = match auctions[k].try_auction(offer) {
            Some(x) => x,
            None => {
                *auctions = saved;
                return Err(FundError::Arithmetic);
            },
        };
        proof {
            assert(auction_states(auctions@) =~= auction_states(mid).update(
                k as int,
                auctioned(auction_states(mid)[k as int], offer@),
            ));
            assert forall|j: int| 0 <= j < auctions@.len() implies #[trigger] auctions@[j].wf() by {
                if j != k {
                    assert(auctions@[j] == mid[j]);
                }
            }
        }
        match self.process_staking_step(epoch, &proceeds, &rems, purchase) {
            Ok(status) => Ok(status),
            Err(e) => {
                *auctions = saved;
                Err(e)
            },
        }
    }

    /// Processes every due entry of the staking queue in `epoch`, round by
    /// round (see `process_staking_round`), until none is due; returns how
    /// many were processed. When a round cannot be made, the fund and the
    /// auctions are left as they were before the first round and its error
    /// is returned.
    pub fn process_staking(&mut self, epoch: u64, auctions: &mut Vec<Auction>) -> (r: Result<
        usize,
        FundError,
    >)
        requires
            old(self).wf(),
            all_wf(old(auctions)@),
        ensures
            final(self).wf(),
            all_wf(final(auctions)@),
            r matches Ok(n) ==> staking_rounds(
                *old(self),
                auction_states(old(auctions)@),
                epoch,
                n as nat,
                *final(self),
                auction_states(final(auctions)@),
            ) && staking_plan_spec(*final(self), epoch) == Err::<Seq<int>, FundError>(
                FundError::NothingDue,
            ) && final(self).staking_queue@ == old(self).staking_queue@.skip(n as int),
            r matches Err(e) ==> staking_stops_with(
                *old(self),
                auction_states(old(auctions)@),
                epoch,
                e,
            ),
            r is Err ==> same_fund(*final(self), *old(self)) && auction_states(final(auctions)@)
                == auction_states(old(auctions)@),
    {
        let ghost f0 = *self;
        let ghost r0 = auction_states(auctions@);
        let saved = self.duplicate();
        let saved_auctions = copy_auctions(auctions);
        proof {
            lemma_states_wf(saved_auctions@, auctions@);
        }
        let mut count: usize = 0;
        let ghost mut fs: Seq<Fund> = seq![f0];
        let ghost mut rs: Seq<Seq<AuctionState>> = seq![r0];
        let qlen = self.staking_queue.len();
        assert(self.staking_queue@.skip(0) =~= f0.staking_queue@);
        loop
            invariant
                self.wf(),
                all_wf(auctions@),
                all_wf(saved_auctions@),
                same_fund(saved, f0),
                auction_states(saved_auctions@) == r0,
                r0 == auction_states(old(auctions)@),
                f0 == *old(self),
                f0.wf(),
                count <= f0.staking_queue@.len(),
                f0.staking_queue@.len() == qlen,
                self.staking_queue@ == f0.staking_queue@.skip(count as int),
                staking_trace(fs, rs, f0, r0, epoch, count as nat, *self, auction_states(auctions@)),
            decreases self.staking_queue@.len(),
        {
            match self.staking_plan(epoch) {
                Err(FundError::NothingDue) => {
                    assert(staking_trace(fs, rs, f0, r0, epoch, count as nat, *self, auction_states(auctions@)));
                    return Ok(count);
                },
                _ => {},
            }
            let ghost prev = *self;
            let ghost prev_reg = auction_states(auctions@);
            proof {
                assert(staking_plan_spec(prev, epoch) != Err::<Seq<int>, FundError>(
                    FundError::NothingDue,
                ));
                assert(staking_rounds(f0, r0, epoch, count as nat, prev, prev_reg));
            }
            match self.process_staking_round(epoch, auctions) {
                Ok(_) => {
                    proof {
                        assert(staking_plan_spec(prev, epoch) is Ok);
                        assert(prev.staking_queue@.len() > 0);
                        assert(self.staking_queue@ =~= f0.staking_queue@.skip(count + 1));
                        assert(staking_round_rel(prev, prev_reg, epoch, *self, auction_states(auctions@)));
                        fs = fs.push(*self);
                        rs = rs.push(auction_states(auctions@));
                    }
                    count = count + 1;
                    proof {
                        assert forall|i: int| 0 <= i < count implies #[trigger] staking_round_rel(fs[i], rs[i], epoch, fs[i + 1], rs[i + 1]) by {
                            if i < count - 1 {
                                assert(fs[i] == fs.drop_last()[i] && fs[i + 1] == fs.drop_last()[i + 1]);
                            }
                        }
                    }
                },
                Err(e) => {
                    *self = saved;
                    *auctions = saved_auctions;
                    return Err(e);
                },
            }
        }
    }

    /// Processes the head of the unstaking queue in `epoch` against the
    /// auctions, which are found by id (see `unstaking_round_result`): its
    /// sale, the purchases that spend the proceeds, and the step. Returns
    /// the receipt's reward. Refused, with the fund and the auctions
    /// unchanged, when the round cannot be made.
    pub fn process_unstaking_round(&mut self, epoch: u64, auctions: &mut Vec<Auction>) -> (r: Result<
        Decimal,
        FundError,
    >)
        requires
            old(self).wf(),
            all_wf(old(auctions)@),
        ensures
            final(self).wf(),
            all_wf(final(auctions)@),
            r is Ok <==> unstaking_round_result(*old(self), auction_states(old(auctions)@), epoch) is Ok,
            r matches Err(e) ==> unstaking_round_result(*old(self), auction_states(old(auctions)@), epoch)
                == Err::<(Seq<AuctionState>, (Seq<Investment>, int, int, int, StakeReceipt)), FundError>(e)
                && *final(self) == *old(self) && auction_states(final(auctions)@) == auction_states(
                old(auctions)@,
            ),
            r matches Ok(reward) ==> reward == unstaking_round_result(
                *old(self),
                auction_states(old(auctions)@),
                epoch,
            ).unwrap().1.4.reward && unstaking_round_rel(
                *old(self),
                auction_states(old(auctions)@),
                epoch,
                *final(self),
                auction_states(final(auctions)@),
            ),
    {
        let ghost r0 = auction_states(auctions@);
        let (k, sell) = match self.unstaking_sale(epoch) {
            Ok(x) => x,
            Err(e) => {
                return Err(e);
            },
        };
        let id = self.investments[k].sell_auction;
        if id >= auctions.len() as u64 {
            return Err(FundError::UnknownAuction);
        }
        let saved = copy_auctions(auctions);
        proof {
            lemma_states_wf(saved@, auctions@);
        }
        let j = id as usize;
        let ghost before = auctions@;
        assert(before[j as int].wf());
        assert(auction_states(before)[j as int] == crate::auction::auction_state(before[j as int]));
        let sale = match auctions[j].try_auction(sell) {
            Some(x) => x,
            None => {
                return Err(FundError::Arithmetic);
            },
        };
        proof {
            assert(auction_states(auctions@) =~= r0.update(j as int, auctioned(r0[j as int], sell@)));
            assert forall|i: int| 0 <= i < auctions@.len() implies #[trigger] auctions@[i].wf() by {
                if i != j {
                    assert(auctions@[i] == before[i]);
                }
            }
        }
        let (_price, invs, reserve, total) = match self.after_sale(epoch, sale) {
            Ok(x) => x,
            Err(e) => {
                *auctions = saved;
                return Err(e);
            },
        };
        let ghost r1 = auction_states(auctions@);
        let buys = if total.gt(Decimal::zero()) {
            match run_buys(&invs, sale.0, total, reserve, auctions) {
                Ok(b) => b,
                Err(e) => {
                    *auctions = saved;
                    return Err(e);
                },
            }
        } else {
            Vec::new()
        };
        proof {
            if total@ <= 0 {
                assert(buy_round_outcomes(r1, invs@, sale.0@, total@, reserve@, 0) == Ok::<
                    (Seq<AuctionState>, Seq<(Decimal, Decimal)>),
                    FundError,
                >((r1, Seq::empty())));
                assert(buys@ =~= Seq::<(Decimal, Decimal)>::empty());
            }
        }
        match self.process_unstaking_step(epoch, sale, &buys) {
            Ok(reward) => Ok(reward),
            Err(e) => {
                *auctions = saved;
                Err(e)
            },
        }
    }

    /// Processes every due entry of the unstaking queue in `epoch`, round
    /// by round (see `process_unstaking_round`), until none is due; returns
    /// how many were processed. When a round cannot be made, the fund and
    /// the auctions are left as they were before the first round and its
    /// error is returned.
    pub fn process_unstaking(&mut self, epoch: u64, auctions: &mut Vec<Auction>) -> (r: Result<
        usize,
        FundError,
    >)
        requires
            old(self).wf(),
            all_wf(old(auctions)@),
        ensures
            final(self).wf(),
            all_wf(final(auctions)@),
            r matches Ok(n) ==> unstaking_rounds(
                *old(self),
                auction_states(old(auctions)@),
                epoch,
                n as nat,
                *final(self),
                auction_states(final(auctions)@),
            ) && unstaking_sale_spec(*final(self), epoch) == Err::<(usize, int), FundError>(
                FundError::NothingDue,
            ) && final(self).unstaking_queue@ == old(self).unstaking_queue@.skip(n as int),
            r matches Err(e) ==> unstaking_stops_with(
                *old(self),
                auction_states(old(auctions)@),
                epoch,
                e,
            ),
            r is Err ==> same_fund(*final(self), *old(self)) && auction_states(final(auctions)@)
                == auction_states(old(auctions)@),
    {
        let ghost f0 = *self;
        let ghost r0 = auction_states(auctions@);
        let saved = self.duplicate();
        let saved_auctions = copy_auctions(auctions);
        proof {
            lemma_states_wf(saved_auctions@, auctions@);
        }
        let mut count: usize = 0;
        let ghost mut fs: Seq<Fund> = seq![f0];
        let ghost mut rs: Seq<Seq<AuctionState>> = seq![r0];
        let qlen = self.unstaking_queue.len();
        assert(self.unstaking_queue@.skip(0) =~= f0.unstaking_queue@);
        loop
            invariant
                self.wf(),
                all_wf(auctions@),
                all_wf(saved_auctions@),
                same_fund(saved, f0),
                auction_states(saved_auctions@) == r0,
                r0 == auction_states(old(auctions)@),
                f0 == *old(self),
                f0.wf(),
                count <= f0.unstaking_queue@.len(),
                f0.unstaking_queue@.len() == qlen,
                self.unstaking_queue@ == f0.unstaking_queue@.skip(count as int),
                unstaking_trace(fs, rs, f0, r0, epoch, count as nat, *self, auction_states(auctions@)),
            decreases self.unstaking_queue@.len(),
        {
            match self.unstaking_sale(epoch) {
                Err(FundError::NothingDue) => {
                    assert(unstaking_trace(fs, rs, f0, r0, epoch, count as nat, *self, auction_states(auctions@)));
                    return Ok(count);
                },
                _ => {},
            }
            let ghost prev = *self;
            let ghost prev_reg = auction_states(auctions@);
            proof {
                assert(unstaking_sale_spec(prev, epoch) != Err::<(usize, int), FundError>(
                    FundError::NothingDue,
                ));
                assert(unstaking_rounds(f0, r0, epoch, count as nat, prev, prev_reg));
            }
            match self.process_unstaking_round(epoch, auctions) {
                Ok(_) => {
                    proof {
                        assert(unstaking_sale_spec(prev, epoch) is Ok);
                        assert(prev.unstaking_queue@.len() > 0);
                        assert(self.unstaking_queue@ =~= f0.unstaking_queue@.skip(count + 1));
                        assert(unstaking_round_rel(prev, prev_reg, epoch, *self, auction_states(auctions@)));
                        fs = fs.push(*self);
                        rs = rs.push(auction_states(auctions@));
                    }
                    count = count + 1;
                    proof {
                        assert forall|i: int| 0 <= i < count implies #[trigger] unstaking_round_rel(fs[i], rs[i], epoch, fs[i + 1], rs[i + 1]) by {
                            if i < count - 1 {
                                assert(fs[i] == fs.drop_last()[i] && fs[i + 1] == fs.drop_last()[i + 1]);
                            }
                        }
                    }
                },
                Err(e) => {
                    *self = saved;
                    *auctions = saved_auctions;
                    return Err(e);
                },
            }
        }
    }

    /// Mints fund tokens for `amount` denominator tokens, making its swaps
    /// through the pools, found by id (see `mint_pools_result` and
    /// `mint_spec`); returns the fund tokens minted. Refused, with the fund
    /// and the pools unchanged, when a swap cannot be made or an amount
    /// overflows.
    pub fn mint_through_pools(&mut self, amount: Decimal, pools: &mut Vec<Pool>) -> (r: Result<
        Decimal,
        FundError,
    >)
        requires
            old(self).wf(),
            pools_wf(old(pools)@),
            amount@ >= 0,
        ensures
            final(self).wf(),
            pools_wf(final(pools)@),
            r is Ok <==> (mint_pools_result(*old(self), old(pools)@, amount@) matches Ok(out) && mint_spec(
                *old(self),
                amount@,
                out.1,
            ) is Some),
            r matches Err(e) ==> *final(self) == *old(self) && final(pools)@ == old(pools)@ && (
            mint_pools_result(*old(self), old(pools)@, amount@) == Err::<(Seq<Pool>, Seq<Decimal>), FundError>(e)
                || (mint_pools_result(*old(self), old(pools)@, amount@) is Ok && e
                == FundError::Arithmetic)),
            r matches Ok(m) ==> {
                let out = mint_pools_result(*old(self), old(pools)@, amount@).unwrap();
                let sp = mint_spec(*old(self), amount@, out.1).unwrap();
                &&& final(pools)@ == out.0
                &&& m@ == sp.2
                &&& final(self).investments@ == sp.0
                &&& final(self).denominator_tokens@ == sp.1
                &&& final(self).supply@ == old(self).supply@ + m@
                &&& *final(self) == (Fund {
                    investments: final(self).investments,
                    denominator_tokens: final(self).denominator_tokens,
                    supply: final(self).supply,
                    ..*old(self)
                })
            },
    {
        let amounts = match self.mint_plan(amount) {
            Ok(v) => v,
            Err(e) => {
                return Err(e);
            },
        };
        proof {
            let n = self.investments@.len() as int;
            let t = total_stake(self.investments@);
            if !(self.supply@ == 0 || t <= 0) {
                lemma_plan_fold_len(self.investments@, amount@, t, amount@, n);
            }
            assert(dec_view(amounts@) =~= mint_amounts(*self, amount@).unwrap());
        }
        let saved = copy_vec(pools);
        let received = match run_pool_swaps(&self.investments, self.denominator_token, &amounts, false, pools) {
            Ok(v) => v,
            Err(e) => {
                *pools = saved;
                return Err(e);
            },
        };
        proof {
            lemma_pool_swaps_len(old(pools)@, self.investments@, self.denominator_token, dec_view(amounts@), false, amounts@.len() as int);
        }
        match self.mint(amount, &received) {
            Ok(m) => Ok(m),
            Err(e) => {
                *pools = saved;
                Err(e)
            },
        }
    }

    /// Redeems `amount` fund tokens for denominator tokens: the reserve's
    /// share and what each investment's share sells for through the pools,
    /// found by id (see `redeem_pools_result` and `redeem`); returns the
    /// denominator tokens paid out. Refused, with the fund and the pools
    /// unchanged, when a swap cannot be made or an amount overflows.
    pub fn redeem_through_pools(&mut self, amount: Decimal, pools: &mut Vec<Pool>) -> (r: Result<
        Decimal,
        FundError,
    >)
        requires
            old(self).wf(),
            pools_wf(old(pools)@),
        ensures
            final(self).wf(),
            pools_wf(final(pools)@),
            r is Ok <==> (redeem_pools_result(*old(self), old(pools)@, amount@) matches Ok(out)
                && sum_fold(out.1, redeem_shares(*old(self), amount@).unwrap().1, out.1.len() as int)
                is Some),
            r matches Err(e) ==> *final(self) == *old(self) && final(pools)@ == old(pools)@ && (
            redeem_pools_result(*old(self), old(pools)@, amount@) == Err::<(Seq<Pool>, Seq<Decimal>), FundError>(e)
                || (redeem_pools_result(*old(self), old(pools)@, amount@) is Ok && e
                == FundError::Arithmetic)),
            r matches Ok(v) ==> {
                let out = redeem_pools_result(*old(self), old(pools)@, amount@).unwrap();
                let sh = redeem_shares(*old(self), amount@).unwrap();
                &&& final(pools)@ == out.0
                &&& Some(v@) == sum_fold(out.1, sh.1, out.1.len() as int)
                &&& final(self).denominator_tokens@ == old(self).denominator_tokens@ - sh.1
                &&& final(self).supply@ == old(self).supply@ - amount@
                &&& final(self).investments@ == apply_sells(old(self).investments@, sh.2)
                &&& *final(self) == (Fund {
                    investments: final(self).investments,
                    denominator_tokens: final(self).denominator_tokens,
                    supply: final(self).supply,
                    ..*old(self)
                })
            },
    {
        let (_take, sells) = match self.redeem_plan(amount) {
            Ok(x) => x,
            Err(e) => {
                return Err(e);
            },
        };
        proof {
            let sh = redeem_shares(*self, amount@).unwrap();
            assert(dec_view(sells@) =~= sh.2);
        }
        let saved = copy_vec(pools);
        let received = match run_pool_swaps(&self.investments, self.denominator_token, &sells, true, pools) {
            Ok(v) => v,
            Err(e) => {
                *pools = saved;
                return Err(e);
            },
        };
        proof {
            lemma_pool_swaps_len(old(pools)@, self.investments@, self.denominator_token, dec_view(sells@), true, sells@.len() as int);
        }
        match self.redeem(amount, &received) {
            Ok(v) => Ok(v),
            Err(e) => {
                *pools = saved;
                Err(e)
            },
        }
    }
}

/// A buying round offers each investment its stake's share of the amount
/// `base`, capped by what is still available: the purchase times the total
/// stake never exceeds `base` times the stake, and whenever the share fits
/// in what is available (or the purchase is below what is available) it
/// falls short of the share only by the rounding.
pub proof fn buy_offers_stake_share(base: int, stake: int, total: int, avail: int)
    requires
        base >= 0,
        stake >= 0,
        total > 0,
        avail >= 0,
        buy_amount_spec(base, stake, total, avail) is Some,
    ensures
        ({
            let c = buy_amount_spec(base, stake, total, avail).unwrap();
            &&& 0 <= c <= avail
            &&& c * total <= base * stake
            &&& (base * stake <= avail * total || c < avail) ==> base * stake < c * total
                + 1_000_000_000_000_000_000 + total
        }),
{
    let d: int = 1_000_000_000_000_000_000;
    assert(base * stake >= 0) by (nonlinear_arith)
        requires
            base >= 0,
            stake >= 0,
    ;
    lemma_floor_bounds(base * stake, d);
    let p = (base * stake) / d;
    assert(mul_attos(base, stake) == p);
    assert(p * d >= 0) by (nonlinear_arith)
        requires
            p >= 0,
            d > 0,
    ;
    lemma_floor_bounds(p * d, total);
    let c0 = (p * d) / total;
    assert(div_attos(p, total) == c0);
    let c = buy_amount_spec(base, stake, total, avail).unwrap();
    if base * stake <= avail * total {
        assert(c0 <= avail) by (nonlinear_arith)
            requires
                c0 * total <= p * d,
                p * d <= base * stake,
                base * stake <= avail * total,
                total > 0,
        ;
    }
    if c0 <= avail {
        assert(c == c0);
    } else {
        assert(c == avail);
        assert(c * total <= c0 * total) by (nonlinear_arith)
            requires
                c <= c0,
                total > 0,
        ;
    }
}

} // verus!
