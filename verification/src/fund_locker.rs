//! A fund locker of the earlier index-fund design: vaults of the fund's
//! tokens and a target weight per token. Fund tokens are minted by weight:
//! each bucket deposited mints its token's weight of the value of all the
//! buckets, rounded up to whole units.
//!
//! A request the locker cannot serve is refused with an error and leaves
//! it, and the oracle, unchanged.
use vstd::prelude::*;
use crate::decimal::{Decimal, in_range, mul_attos, ceil_to, one_attos};
use crate::ledger::{Ledger, keys_distinct};
use crate::price_oracle::PriceOracle;
use crate::registry::find_id;

verus! {

/// Why the locker refused a request.
#[derive(Clone, Copy, Debug, PartialEq, Eq, Structural)]
pub enum FundLockerError {
    /// A running total left the decimal range.
    Overflow,
    /// The new weights do not keep the total weight whole.
    WeightsNotWhole,
    /// A token has no weight in the fund.
    NoWeight,
    /// A token has no vault in the fund.
    NotInFund,
    /// A token has no price at the oracle.
    NoPrice,
}

/// The locker: its vaults and weights by token, its fund token and the
/// fund tokens minted so far.
#[derive(Debug)]
pub struct FundLocker {
    pub fund_vaults: Ledger,
    pub token_weights: Ledger,
    pub fund_token: u64,
    pub starting_share_price: Decimal,
    pub fund_token_supply: Decimal,
}

/// `start` plus the amounts of the first `n` entries, each running total in
/// range; `None` when one is not.
pub open spec fn running_total(start: int, s: Seq<(u64, Decimal)>, n: int) -> Option<int>
    decreases n,
{
    if n <= 0 {
        Some(start)
    } else {
        match running_total(start, s, n - 1) {
            None => None,
            Some(a) => if in_range(a + s[n - 1].1@) {
                Some(a + s[n - 1].1@)
            } else {
                None
            },
        }
    }
}

/// The weight entries `es` (first `n` of them) after removing the tokens
/// of `remove` and giving each remaining token listed in `weights` its new
/// weight; the order is kept.
pub open spec fn rebalanced(
    es: Seq<(u64, Decimal)>,
    weights: Map<u64, int>,
    remove: Seq<u64>,
    n: int,
) -> Seq<(u64, Decimal)>
    decreases n,
{
    if n <= 0 {
        Seq::empty()
    } else {
        let prev = rebalanced(es, weights, remove, n - 1);
        let e = es[n - 1];
        if remove.contains(e.0) {
            prev
        } else if weights.dom().contains(e.0) {
            prev.push((e.0, Decimal { attos: weights[e.0] as i128 }))
        } else {
            prev.push(e)
        }
    }
}

/// The totals of the first `n` buckets `b` (token, amount) at `prices`:
/// their amount and their value, each running total in range; `NoPrice`
/// for a token without a price, `Overflow` when a value or a total leaves
/// the range.
pub open spec fn bucket_totals(b: Seq<(u64, Decimal)>, prices: Map<u64, int>, n: int) -> Result<
    (int, int),
    FundLockerError,
>
    decreases n,
{
    if n <= 0 {
        Ok((0, 0))
    } else {
        match bucket_totals(b, prices, n - 1) {
            Err(e) => Err(e),
            Ok(acc) => {
                let t = b[n - 1].0;
                let a = b[n - 1].1@;
                if !prices.dom().contains(t) {
                    Err(FundLockerError::NoPrice)
                } else {
                    let v = mul_attos(a, prices[t]);
                    if !in_range(v) || !in_range(acc.0 + a) || !in_range(acc.1 + v) {
                        Err(FundLockerError::Overflow)
                    } else {
                        Ok((acc.0 + a, acc.1 + v))
                    }
                }
            },
        }
    }
}

/// Minting by weight for the buckets `b` from index `i` on, taken from the
/// last: each bucket mints its token's weight (at `w`) of the buckets'
/// value `cv`, rounded up to whole units, and goes into its token's vault
/// (at `v`). Gives the fund tokens minted and the vaults after; or why a
/// bucket is refused.
pub open spec fn weighted_mint(
    b: Seq<(u64, Decimal)>,
    w: Map<u64, int>,
    v: Map<u64, int>,
    cv: int,
    i: int,
) -> Result<(int, Map<u64, int>), FundLockerError>
    decreases b.len() - i,
{
    if i >= b.len() || i < 0 {
        Ok((0, v))
    } else {
        match weighted_mint(b, w, v, cv, i + 1) {
            Err(e) => Err(e),
            Ok(acc) => {
                let t = b[i].0;
                if !w.dom().contains(t) {
                    Err(FundLockerError::NoWeight)
                } else {
                    let m = mul_attos(cv, w[t]);
                    let c = ceil_to(m, one_attos());
                    if !in_range(m) || !in_range(c) || !in_range(acc.0 + c) {
                        Err(FundLockerError::Overflow)
                    } else if !acc.1.dom().contains(t) {
                        Err(FundLockerError::NotInFund)
                    } else if !in_range(acc.1[t] + b[i].1@) {
                        Err(FundLockerError::Overflow)
                    } else {
                        Ok((acc.0 + c, acc.1.insert(t, acc.1[t] + b[i].1@)))
                    }
                }
            },
        }
    }
}

proof fn lemma_totals_err(b: Seq<(u64, Decimal)>, prices: Map<u64, int>, k: int, n: int)
    requires
        0 <= k <= n,
        bucket_totals(b, prices, k) is Err,
    ensures
        bucket_totals(b, prices, n) == bucket_totals(b, prices, k),
    decreases n - k,
{
    if k < n {
        lemma_totals_err(b, prices, k + 1, n);
    }
}

proof fn lemma_mint_err(b: Seq<(u64, Decimal)>, w: Map<u64, int>, v: Map<u64, int>, cv: int, k: int)
    requires
        0 <= k <= b.len(),
        weighted_mint(b, w, v, cv, k) is Err,
    ensures
        weighted_mint(b, w, v, cv, 0) == weighted_mint(b, w, v, cv, k),
    decreases k,
{
    if k > 0 {
        lemma_mint_err(b, w, v, cv, k - 1);
    }
}

impl FundLocker {
    /// Vaults and weights each have distinct tokens.
    pub open spec fn wf(&self) -> bool {
        self.fund_vaults.wf() && self.token_weights.wf()
    }

    /// A locker for the tokens of `tokens` (token, weight), each with an
    /// empty vault, minting `fund_token`.
    pub fn new(tokens: &Vec<(u64, Decimal)>, fund_token: u64, starting_share_price: Decimal) -> (r:
        FundLocker)
        requires
            keys_distinct(tokens@),
        ensures
            r.wf(),
            r.token_weights.entries@ == tokens@,
            r.fund_vaults.entries@.len() == tokens@.len(),
            forall|i: int|
                0 <= i < tokens@.len() ==> #[trigger] r.fund_vaults.entries@[i] == (
                    tokens@[i].0,
                    Decimal { attos: 0 },
                ),
            r.fund_token == fund_token,
            r.starting_share_price == starting_share_price,
            r.fund_token_supply@ == 0,
    {
        let mut vaults: Vec<(u64, Decimal)> = Vec::new();
        let mut weights: Vec<(u64, Decimal)> = Vec::new();
        let mut i: usize = 0;
        while i < tokens.len()
            invariant
                0 <= i <= tokens@.len(),
                weights@ == tokens@.subrange(0, i as int),
                vaults@.len() == i,
                forall|j: int|
                    0 <= j < i ==> #[trigger] vaults@[j] == (tokens@[j].0, Decimal { attos: 0 }),
            decreases tokens@.len() - i,
        {
            vaults.push((tokens[i].0, Decimal::zero()));
            weights.push(tokens[i]);
            i = i + 1;
        }
        assert(weights@ =~= tokens@);
        assert(keys_distinct(vaults@)) by {
            assert forall|a: int, b: int|
                0 <= a < vaults@.len() && 0 <= b < vaults@.len() && a != b implies vaults@[a].0
                != vaults@[b].0 by {
                assert(vaults@[a].0 == tokens@[a].0 && vaults@[b].0 == tokens@[b].0);
            }
        }
        FundLocker {
            fund_vaults: Ledger { entries: vaults },
            token_weights: Ledger { entries: weights },
            fund_token,
            starting_share_price,
            fund_token_supply: Decimal::zero(),
        }
    }

    /// The total amount of the buckets `buckets` (token, amount).
    pub fn get_total_token_amount(&self, buckets: &Vec<(u64, Decimal)>) -> (r: Result<
        Decimal,
        FundLockerError,
    >)
        ensures
            r is Ok <==> running_total(0, buckets@, buckets@.len() as int) is Some,
            r is Err ==> r == Err::<Decimal, FundLockerError>(FundLockerError::Overflow),
            r matches Ok(v) ==> Some(v@) == running_total(0, buckets@, buckets@.len() as int),
    {
        let mut amount = Decimal::zero();
        let mut i: usize = 0;
        while i < buckets.len()
            invariant
                0 <= i <= buckets@.len(),
                running_total(0, buckets@, i as int) == Some(amount@),
            decreases buckets@.len() - i,
        {
            match amount.checked_add(buckets[i].1) {
                Some(x) => {
                    amount = x;
                },
                None => {
                    proof {
                        lemma_running_none(0, buckets@, i + 1, buckets@.len() as int);
                    }
                    return Err(FundLockerError::Overflow);
                },
            }
            i = i + 1;
        }
        Ok(amount)
    }

    /// Removes the tokens of `remove` from the weights and gives each
    /// remaining token listed in `weights` its new weight. The weights
    /// listed are added to a running total that starts at one, which must
    /// end at one: so they must sum to zero (`WeightsNotWhole`; `Overflow`
    /// when the total leaves the range).
    pub fn remove_token(&mut self, weights: &Ledger, remove: &Vec<u64>) -> (r: Result<
        (),
        FundLockerError,
    >)
        requires
            old(self).wf(),
            weights.wf(),
        ensures
            final(self).wf(),
            ({
                let c = running_total(one_attos(), weights.entries@, weights.entries@.len() as int);
                &&& c is None ==> r == Err::<(), FundLockerError>(FundLockerError::Overflow)
                &&& c is Some && c != Some(one_attos()) ==> r == Err::<(), FundLockerError>(
                    FundLockerError::WeightsNotWhole,
                )
                &&& r is Ok <==> c == Some(one_attos())
                &&& r is Err ==> *final(self) == *old(self)
                &&& r is Ok ==> final(self).token_weights.entries@ == rebalanced(
                    old(self).token_weights.entries@,
                    weights@,
                    remove@,
                    old(self).token_weights.entries@.len() as int,
                ) && final(self).fund_vaults == old(self).fund_vaults && final(self).fund_token
                    == old(self).fund_token && final(self).starting_share_price == old(
                    self,
                ).starting_share_price && final(self).fund_token_supply == old(
                    self,
                ).fund_token_supply
            }),
    {
        let mut total = Decimal::one();
        let mut k: usize = 0;
        while k < weights.entries.len()
            invariant
                0 <= k <= weights.entries@.len(),
                running_total(one_attos(), weights.entries@, k as int) == Some(total@),
                self.wf(),
            decreases weights.entries@.len() - k,
        {
            match total.checked_add(weights.entries[k].1) {
                Some(x) => {
                    total = x;
                },
                None => {
                    proof {
                        lemma_running_none(
                            one_attos(),
                            weights.entries@,
                            k + 1,
                            weights.entries@.len() as int,
                        );
                    }
                    return Err(FundLockerError::Overflow);
                },
            }
            k = k + 1;
        }
        if !total.eq(Decimal::one()) {
            return Err(FundLockerError::WeightsNotWhole);
        }
        let ghost es = self.token_weights.entries@;
        let mut out: Vec<(u64, Decimal)> = Vec::new();
        let mut i: usize = 0;
        while i < self.token_weights.entries.len()
            invariant
                es == self.token_weights.entries@,
                keys_distinct(es),
                weights.wf(),
                0 <= i <= es.len(),
                out@ == rebalanced(es, weights@, remove@, i as int),
                forall|j: int|
                    0 <= j < out@.len() ==> exists|m: int| 0 <= m < i && #[trigger] out@[j].0 == es[m].0,
                keys_distinct(out@),
            decreases es.len() - i,
        {
            let e = self.token_weights.entries[i];
            let ghost prev = out@;
            match find_id(remove, e.0) {
                Some(_) => {
                    assert(remove@.contains(e.0));
                },
                None => {
                    let item = match weights.get(e.0) {
                        Some(w) => (e.0, w),
                        None => e,
                    };
                    out.push(item);
                    proof {
                        assert forall|a: int, b: int|
                            0 <= a < out@.len() && 0 <= b < out@.len() && a != b implies out@[a].0
                            != out@[b].0 by {
                            if a < prev.len() && b < prev.len() {
                                assert(prev[a].0 != prev[b].0);
                            } else if a < prev.len() {
                                let m = choose|m: int| 0 <= m < i && prev[a].0 == es[m].0;
                                assert(es[m].0 != es[i as int].0);
                            } else if b < prev.len() {
                                let m = choose|m: int| 0 <= m < i && prev[b].0 == es[m].0;
                                assert(es[m].0 != es[i as int].0);
                            }
                        }
                        assert forall|j: int| 0 <= j < out@.len() implies exists|m: int|
                            0 <= m < i + 1 && #[trigger] out@[j].0 == es[m].0 by {
                            if j < prev.len() {
                                let m = choose|m: int| 0 <= m < i && prev[j].0 == es[m].0;
                                assert(out@[j].0 == es[m].0);
                            } else {
                                assert(out@[j].0 == es[i as int].0);
                            }
                        }
                    }
                },
            }
            i = i + 1;
        }
        self.token_weights = Ledger { entries: out };
        Ok(())
    }

    /// Issues fund tokens for the buckets `buckets` (token, amount): the
    /// buckets are valued at the oracle's prices (see `bucket_totals`), then
    /// taken from the last, each minting its token's weight of that value,
    /// rounded up to whole units, into its token's vault (see
    /// `weighted_mint`); the fund token is then priced at one. Returns the
    /// fund tokens minted.
    pub fn issue_tokens(&mut self, buckets: &Vec<(u64, Decimal)>, oracle: &mut PriceOracle) -> (r:
        Result<Decimal, FundLockerError>)
        requires
            old(self).wf(),
            old(oracle).wf(),
        ensures
            final(self).wf(),
            final(oracle).wf(),
            ({
                let o = old(self);
                let n = buckets@.len() as int;
                match bucket_totals(buckets@, old(oracle).prices@, n) {
                    Err(e) => r == Err::<Decimal, FundLockerError>(e),
                    Ok(t) => match weighted_mint(
                        buckets@,
                        o.token_weights@,
                        o.fund_vaults@,
                        t.1,
                        0,
                    ) {
                        Err(e) => r == Err::<Decimal, FundLockerError>(e),
                        Ok(m) => if !in_range(o.fund_token_supply@ + m.0) {
                            r == Err::<Decimal, FundLockerError>(FundLockerError::Overflow)
                        } else {
                            &&& r matches Ok(x) && x@ == m.0
                            &&& final(self).fund_vaults@ == m.1
                            &&& final(self).fund_token_supply@ == o.fund_token_supply@ + m.0
                            &&& final(self).token_weights == o.token_weights
                            &&& final(self).fund_token == o.fund_token
                            &&& final(self).starting_share_price == o.starting_share_price
                            &&& final(oracle).prices@ == old(oracle).prices@.insert(
                                o.fund_token,
                                one_attos(),
                            )
                        },
                    },
                }
            }),
            r is Err ==> final(self).fund_vaults.entries@ == old(self).fund_vaults.entries@
                && final(self).token_weights == old(self).token_weights
                && final(self).fund_token_supply == old(self).fund_token_supply
                && final(oracle).prices@ == old(oracle).prices@,
    {
        let ghost b = buckets@;
        let ghost prices = oracle.prices@;
        let n = buckets.len();
        let mut amount = Decimal::zero();
        let mut value = Decimal::zero();
        let mut k: usize = 0;
        while k < n
            invariant
                n == b.len(),
                b == buckets@,
                prices == oracle.prices@,
                oracle.wf(),
                *oracle == *old(oracle),
                *self == *old(self),
                self.wf(),
                0 <= k <= n,
                bucket_totals(b, prices, k as int) == Ok::<(int, int), FundLockerError>(
                    (amount@, value@),
                ),
            decreases n - k,
        {
            let (t, a) = buckets[k];
            let p = match oracle.get_price(t) {
                Some(p) => p,
                None => {
                    proof {
                        lemma_totals_err(b, prices, k + 1, n as int);
                    }
                    return Err(FundLockerError::NoPrice);
                },
            };
            let v = match a.checked_mul(p) {
                Some(v) => v,
                None => {
                    proof {
                        lemma_totals_err(b, prices, k + 1, n as int);
                    }
                    return Err(FundLockerError::Overflow);
                },
            };
            let a2 = match amount.checked_add(a) {
                Some(x) => x,
                None => {
                    proof {
                        lemma_totals_err(b, prices, k + 1, n as int);
                    }
                    return Err(FundLockerError::Overflow);
                },
            };
            let v2 = match value.checked_add(v) {
                Some(x) => x,
                None => {
                    proof {
                        lemma_totals_err(b, prices, k + 1, n as int);
                    }
                    return Err(FundLockerError::Overflow);
                },
            };
            amount = a2;
            value = v2;
            k = k + 1;
        }
        let ghost w = self.token_weights@;
        let ghost v0 = self.fund_vaults@;
        let saved = self.fund_vaults.duplicate();
        let mut minted = Decimal::zero();
        let mut i: usize = n;
        while i > 0
            invariant
                n == b.len(),
                b == buckets@,
                0 <= i <= n,
                self.wf(),
                w == self.token_weights@,
                v0 == old(self).fund_vaults@,
                old(self).wf(),
                old(oracle).wf(),
                bucket_totals(b, old(oracle).prices@, n as int) == Ok::<(int, int), FundLockerError>(
                    (amount@, value@),
                ),
                oracle.wf(),
                *oracle == *old(oracle),
                saved.entries@ == old(self).fund_vaults.entries@,
                self.token_weights == old(self).token_weights,
                self.fund_token_supply == old(self).fund_token_supply,
                self.fund_token == old(self).fund_token,
                self.starting_share_price == old(self).starting_share_price,
                weighted_mint(b, w, v0, value@, i as int) == Ok::<
                    (int, Map<u64, int>),
                    FundLockerError,
                >((minted@, self.fund_vaults@)),
            decreases i,
        {
            let j = i - 1;
            let (t, a) = buckets[j];
            let wt = match self.token_weights.get(t) {
                Some(x) => x,
                None => {
                    proof {
                        lemma_mint_err(b, w, v0, value@, j as int);
                    }
                    self.fund_vaults = saved;
                    return Err(FundLockerError::NoWeight);
                },
            };
            let m = match value.checked_mul(wt) {
                Some(x) => x,
                None => {
                    proof {
                        lemma_mint_err(b, w, v0, value@, j as int);
                    }
                    self.fund_vaults = saved;
                    return Err(FundLockerError::Overflow);
                },
            };
            let c = match m.checked_round_up_units() {
                Some(x) => x,
                None => {
                    proof {
                        lemma_mint_err(b, w, v0, value@, j as int);
                    }
                    self.fund_vaults = saved;
                    return Err(FundLockerError::Overflow);
                },
            };
            let m2 = match minted.checked_add(c) {
                Some(x) => x,
                None => {
                    proof {
                        lemma_mint_err(b, w, v0, value@, j as int);
                    }
                    self.fund_vaults = saved;
                    return Err(FundLockerError::Overflow);
                },
            };
            let held = match self.fund_vaults.get(t) {
                Some(x) => x,
                None => {
                    proof {
                        lemma_mint_err(b, w, v0, value@, j as int);
                    }
                    self.fund_vaults = saved;
                    return Err(FundLockerError::NotInFund);
                },
            };
            if held.checked_add(a).is_none() {
                proof {
                    lemma_mint_err(b, w, v0, value@, j as int);
                }
                self.fund_vaults = saved;
                return Err(FundLockerError::Overflow);
            }
            self.fund_vaults.deposit(t, a);
            minted = m2;
            i = j;
        }
        let supply = match self.fund_token_supply.checked_add(minted) {
            Some(x) => x,
            None => {
                self.fund_vaults = saved;
                return Err(FundLockerError::Overflow);
            },
        };
        self.fund_token_supply = supply;
        oracle.set_price(self.fund_token, Decimal::one());
        Ok(minted)
    }

    /// The fund's tokens and their weights.
    pub fn view_weights(&self) -> (r: Vec<(u64, Decimal)>)
        ensures
            r@ == self.token_weights.entries@,
    {
        let mut out: Vec<(u64, Decimal)> = Vec::new();
        let mut i: usize = 0;
        while i < self.token_weights.entries.len()
            invariant
                0 <= i <= self.token_weights.entries@.len(),
                out@ == self.token_weights.entries@.subrange(0, i as int),
            decreases self.token_weights.entries@.len() - i,
        {
            out.push(self.token_weights.entries[i]);
            i = i + 1;
        }
        assert(out@ =~= self.token_weights.entries@);
        out
    }
}

proof fn lemma_running_none(start: int, s: Seq<(u64, Decimal)>, k: int, n: int)
    requires
        0 <= k <= n,
        running_total(start, s, k) is None,
    ensures
        running_total(start, s, n) is None,
    decreases n - k,
{
    if k < n {
        lemma_running_none(start, s, k + 1, n);
    }
}

} // verus!
