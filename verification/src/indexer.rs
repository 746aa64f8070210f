//! An index fund of several token pools. A deposit of XRD is split evenly
//! over the pools (swapped into each pool's token on an exchange)
//! and earns index tokens; index tokens are redeemed for the same share of
//! every pool. The pools also lend flash loans against a promise token
//! recording the loan plus 4%.
//!
//! The index either takes the swaps' outcomes as arguments or makes the
//! swaps itself on oracle-priced exchanges. A request that fails a
//! check or overflows is refused with an error and leaves the index
//! and the exchanges unchanged.
use vstd::prelude::*;
use crate::decimal::{Decimal, in_range, mul_attos, div_attos, one_attos};
use crate::ledger::{Ledger, keys_distinct};
use crate::price_oracle::PriceOracle;
use crate::oracle_dex::{OracleDex, DexError, dex_swap};

verus! {

/// The data of a flash loan's promise token.
#[derive(Clone, Copy, Debug, PartialEq, Eq, Structural)]
pub struct LoanDue {
    pub amount_due: Decimal,
}

/// Why the index refused a request.
#[derive(Clone, Copy, Debug, PartialEq, Eq, Structural)]
pub enum IndexerError {
    /// The index has no pools to split a deposit over.
    NoIndexPools,
    /// No exchange address has been set for the swaps.
    NoExchange,
    /// No oracle address has been set.
    NoOracle,
    /// The oracle has no price for the token.
    UnknownPrice,
    /// The tokens are not index tokens.
    WrongToken,
    /// No pool holds this token.
    NoSuchPool,
    /// A loan must not be negative.
    InvalidAmount,
    /// The pool does not hold the tokens asked for.
    InsufficientLiquidity,
    /// The promise token is not this index's.
    WrongLoanTerms,
    /// The repayment is below the amount due.
    InsufficientRepayment,
    /// The outcomes given do not match the pools.
    OutcomeMismatch,
    /// An amount overflows or a divisor is zero.
    Arithmetic,
    /// The exchange refused a swap.
    Exchange(DexError),
}

/// Attos of the flash loan fee factor 1.04.
pub open spec fn index_loan_factor() -> int {
    1_040_000_000_000_000_000
}

/// The index: pool balances per token, the XRD token's id, the index
/// token's id, the index tokens outstanding, the promise token's id, and
/// the addresses of the exchanges and oracles it uses.
#[derive(Clone, Debug)]
pub struct Indexer {
    pub pools: Ledger,
    pub xrd: u64,
    pub indexer_token: u64,
    pub index_token_counter: Decimal,
    pub transient_resource: u64,
    pub ociswap_address: Option<u64>,
    pub radex_address: Option<u64>,
    pub oracle1_address: Option<u64>,
    pub oracle2_address: Option<u64>,
}

/// Whether some pool holds a token other than XRD.
pub open spec fn has_non_xrd(entries: Seq<(u64, Decimal)>, xrd: u64) -> bool {
    exists|i: int| 0 <= i < entries.len() && entries[i].0 != xrd
}

/// What a deposit adds to pool `e`: the even share for the XRD pool, what
/// the swap of the share returned (`got`) for any other.
pub open spec fn deposit_add(e: (u64, Decimal), xrd: u64, per: int, got: Decimal) -> int {
    if e.0 == xrd {
        per
    } else {
        got@
    }
}

/// The even share of a deposit of `amount` over `n` pools.
pub open spec fn deposit_share(amount: int, n: int) -> int {
    div_attos(amount, n * one_attos())
}

/// Tokens taken from each of the first `n` pools for a share `pct`; `None`
/// where a product overflows or a pool does not cover its part.
pub open spec fn take_fold(entries: Seq<(u64, Decimal)>, pct: int, n: int) -> Option<Seq<int>>
    decreases n,
{
    if n <= 0 {
        Some(Seq::empty())
    } else {
        match take_fold(entries, pct, n - 1) {
            None => None,
            Some(acc) => {
                let x = mul_attos(entries[n - 1].1@, pct);
                if in_range(x) && 0 <= x <= entries[n - 1].1@ {
                    Some(acc.push(x))
                } else {
                    None
                }
            },
        }
    }
}

proof fn lemma_take_fold_none(entries: Seq<(u64, Decimal)>, pct: int, n: int, m: int)
    requires
        0 <= n <= m,
        take_fold(entries, pct, n) is None,
    ensures
        take_fold(entries, pct, m) is None,
    decreases m,
{
    if n < m {
        lemma_take_fold_none(entries, pct, n, m - 1);
    }
}

proof fn lemma_take_fold_len(entries: Seq<(u64, Decimal)>, pct: int, n: int)
    requires
        0 <= n,
        take_fold(entries, pct, n) is Some,
    ensures
        take_fold(entries, pct, n).unwrap().len() == n,
    decreases n,
{
    if n > 0 {
        lemma_take_fold_len(entries, pct, n - 1);
    }
}

proof fn lemma_take_fold_elem(entries: Seq<(u64, Decimal)>, pct: int, n: int, i: int)
    requires
        0 <= i < n <= entries.len(),
        take_fold(entries, pct, n) is Some,
    ensures
        take_fold(entries, pct, n).unwrap().len() == n,
        take_fold(entries, pct, n).unwrap()[i] == mul_attos(entries[i].1@, pct),
    decreases n,
{
    if i < n - 1 {
        lemma_take_fold_elem(entries, pct, n - 1, i);
    } else if n > 1 {
        lemma_take_fold_elem(entries, pct, n - 1, 0);
    }
}

/// Whether `t` keeps the ids of `s`, entry by entry.
pub open spec fn same_ids(s: Seq<(u64, Decimal)>, t: Seq<(u64, Decimal)>) -> bool {
    &&& s.len() == t.len()
    &&& forall|i: int| 0 <= i < s.len() ==> #[trigger] t[i].0 == s[i].0
}

/// Every amount a deposit of `amount` XRD computes fits, given what each
/// pool's swap returned (see `deposit`).
pub open spec fn deposit_fits(f: Indexer, amount: int, received: Seq<Decimal>) -> bool {
    let es = f.pools.entries@;
    let n = es.len() as int;
    let per = deposit_share(amount, n);
    let split = mul_attos(per, n * one_attos());
    &&& in_range(per)
    &&& in_range(f.index_token_counter@ + per)
    &&& in_range(split)
    &&& in_range(amount - split)
    &&& forall|i: int|
        0 <= i < n ==> #[trigger] in_range(es[i].1@ + deposit_add(es[i], f.xrd, per, received[i]))
}

/// The swaps of a deposit over the first `n` pools `es`, on an exchange
/// with pools `dex` at `prices`: each pool other than XRD's swaps `per` XRD
/// for its token in turn. Gives the exchange's pools after and what each
/// pool received (nothing for XRD's); or why a swap is refused.
pub open spec fn deposit_swaps(
    dex: Map<u64, int>,
    prices: Map<u64, int>,
    es: Seq<(u64, Decimal)>,
    xrd: u64,
    per: int,
    n: int,
) -> Result<(Map<u64, int>, Seq<Decimal>), IndexerError>
    decreases n,
{
    if n <= 0 {
        Ok((dex, Seq::empty()))
    } else {
        match deposit_swaps(dex, prices, es, xrd, per, n - 1) {
            Err(e) => Err(e),
            Ok(acc) => if es[n - 1].0 == xrd {
                Ok((acc.0, acc.1.push(Decimal { attos: 0 })))
            } else {
                match dex_swap(acc.0, prices, xrd, per, es[n - 1].0) {
                    Err(e) => Err(IndexerError::Exchange(e)),
                    Ok(x) => Ok((x.0, acc.1.push(Decimal { attos: x.1 as i128 }))),
                }
            },
        }
    }
}

/// The swaps a deposit of `amount` XRD makes through the exchange (see
/// `deposit_swaps`), after the checks the deposit makes first.
pub open spec fn deposit_through_result(f: Indexer, dex: Map<u64, int>, prices: Map<u64, int>, amount: int) -> Result<
    (Map<u64, int>, Seq<Decimal>),
    IndexerError,
> {
    let es = f.pools.entries@;
    let n = es.len() as int;
    let per = deposit_share(amount, n);
    if n == 0 {
        Err(IndexerError::NoIndexPools)
    } else if f.ociswap_address is None && has_non_xrd(es, f.xrd) {
        Err(IndexerError::NoExchange)
    } else if !in_range(per) {
        Err(IndexerError::Arithmetic)
    } else {
        deposit_swaps(dex, prices, es, f.xrd, per, n)
    }
}

/// A withdrawal of `amount` index tokens of resource `token` succeeds in
/// the index (see `withdraw`).
pub open spec fn withdraw_ok(f: Indexer, token: u64, amount: int) -> bool {
    let es = f.pools.entries@;
    let c = f.index_token_counter@;
    let pct = div_attos(amount, c);
    &&& token == f.indexer_token
    &&& c != 0 && in_range(pct) && in_range(c - amount)
    &&& f.ociswap_address is Some || !has_non_xrd(es, f.xrd)
    &&& take_fold(es, pct, es.len() as int) is Some
}

/// Why a withdrawal of `amount` index tokens of `token` is refused when
/// `withdraw_ok` does not hold: the wrong token, a share or a supply out of
/// range, no exchange for the non-XRD pools, or a pool too small for its take.
pub open spec fn withdraw_error(f: Indexer, token: u64, amount: int) -> IndexerError {
    let es = f.pools.entries@;
    let c = f.index_token_counter@;
    let pct = div_attos(amount, c);
    if token != f.indexer_token {
        IndexerError::WrongToken
    } else if !(c != 0 && in_range(pct) && in_range(c - amount)) {
        IndexerError::Arithmetic
    } else if f.ociswap_address is None && has_non_xrd(es, f.xrd) {
        IndexerError::NoExchange
    } else {
        IndexerError::InsufficientLiquidity
    }
}

/// The swaps of a withdrawal over the first `n` pools `es`, on an exchange
/// with pools `dex` at `prices`: each pool's take (`takes`) other than
/// XRD's is swapped for XRD in turn. Gives the exchange's pools after and
/// the XRD collected; or why a swap is refused.
pub open spec fn withdraw_swaps(
    dex: Map<u64, int>,
    prices: Map<u64, int>,
    es: Seq<(u64, Decimal)>,
    xrd: u64,
    takes: Seq<int>,
    n: int,
) -> Result<(Map<u64, int>, int), IndexerError>
    decreases n,
{
    if n <= 0 {
        Ok((dex, 0))
    } else {
        match withdraw_swaps(dex, prices, es, xrd, takes, n - 1) {
            Err(e) => Err(e),
            Ok(acc) => if es[n - 1].0 == xrd {
                if in_range(acc.1 + takes[n - 1]) {
                    Ok((acc.0, acc.1 + takes[n - 1]))
                } else {
                    Err(IndexerError::Arithmetic)
                }
            } else {
                match dex_swap(acc.0, prices, es[n - 1].0, takes[n - 1], xrd) {
                    Err(e) => Err(IndexerError::Exchange(e)),
                    Ok(x) => if in_range(acc.1 + x.1) {
                        Ok((x.0, acc.1 + x.1))
                    } else {
                        Err(IndexerError::Arithmetic)
                    },
                }
            },
        }
    }
}

/// The arbitrage of the pool of `token`: the whole pool sold for XRD on
/// the first exchange (pools `oci` at `p1`), the XRD bought back into the
/// token on the second (pools `radex` at `p2`). Gives both exchanges'
/// pools after and the tokens returned; or why it is refused.
pub open spec fn arb_result(
    f: Indexer,
    oci: Map<u64, int>,
    radex: Map<u64, int>,
    p1: Map<u64, int>,
    p2: Map<u64, int>,
    token: u64,
) -> Result<(Map<u64, int>, Map<u64, int>, int), IndexerError> {
    let pools = f.pools@;
    if !pools.dom().contains(token) {
        Err(IndexerError::NoSuchPool)
    } else if f.ociswap_address is None || f.radex_address is None {
        Err(IndexerError::NoExchange)
    } else {
        match dex_swap(oci, p1, token, pools[token], f.xrd) {
            Err(e) => Err(IndexerError::Exchange(e)),
            Ok(a) => match dex_swap(radex, p2, f.xrd, a.1, token) {
                Err(e) => Err(IndexerError::Exchange(e)),
                Ok(b) => if !in_range(b.1 - pools[token]) {
                    Err(IndexerError::Arithmetic)
                } else {
                    Ok((a.0, b.0, b.1))
                },
            },
        }
    }
}

proof fn lemma_deposit_swaps_err(
    dex: Map<u64, int>,
    prices: Map<u64, int>,
    es: Seq<(u64, Decimal)>,
    xrd: u64,
    per: int,
    m: int,
    n: int,
)
    requires
        0 <= m <= n,
        deposit_swaps(dex, prices, es, xrd, per, m) is Err,
    ensures
        deposit_swaps(dex, prices, es, xrd, per, n) == deposit_swaps(dex, prices, es, xrd, per, m),
    decreases n - m,
{
    if n > m {
        lemma_deposit_swaps_err(dex, prices, es, xrd, per, m, n - 1);
    }
}

proof fn lemma_deposit_swaps_len(dex: Map<u64, int>, prices: Map<u64, int>, es: Seq<(u64, Decimal)>, xrd: u64, per: int, n: int)
    requires
        0 <= n,
        deposit_swaps(dex, prices, es, xrd, per, n) is Ok,
    ensures
        deposit_swaps(dex, prices, es, xrd, per, n).unwrap().1.len() == n,
    decreases n,
{
    if n > 0 {
        lemma_deposit_swaps_len(dex, prices, es, xrd, per, n - 1);
    }
}

proof fn lemma_withdraw_swaps_err(
    dex: Map<u64, int>,
    prices: Map<u64, int>,
    es: Seq<(u64, Decimal)>,
    xrd: u64,
    takes: Seq<int>,
    m: int,
    n: int,
)
    requires
        0 <= m <= n,
        withdraw_swaps(dex, prices, es, xrd, takes, m) is Err,
    ensures
        withdraw_swaps(dex, prices, es, xrd, takes, n) == withdraw_swaps(dex, prices, es, xrd, takes, m),
    decreases n - m,
{
    if n > m {
        lemma_withdraw_swaps_err(dex, prices, es, xrd, takes, m, n - 1);
    }
}

/// The values of a sequence of decimals.
pub open spec fn dec_seq(v: Seq<Decimal>) -> Seq<int> {
    Seq::new(v.len(), |i: int| v[i]@)
}

proof fn lemma_same_ids_distinct(s: Seq<(u64, Decimal)>, t: Seq<(u64, Decimal)>)
    requires
        keys_distinct(s),
        same_ids(s, t),
    ensures
        keys_distinct(t),
{
    assert forall|i: int, j: int|
        0 <= i < t.len() && 0 <= j < t.len() && i != j implies t[i].0 != t[j].0 by {
        assert(t[i].0 == s[i].0);
        assert(t[j].0 == s[j].0);
    }
}

impl Indexer {
    /// The pool list has distinct ids.
    pub open spec fn wf(&self) -> bool {
        self.pools.wf()
    }

    /// An index with no pools and no index tokens outstanding.
    pub fn new(xrd: u64, indexer_token: u64, transient_resource: u64) -> (r: Indexer)
        ensures
            r.wf(),
            r.pools.entries@.len() == 0,
            r.xrd == xrd,
            r.indexer_token == indexer_token,
            r.transient_resource == transient_resource,
            r.index_token_counter@ == 0,
            r.ociswap_address is None && r.radex_address is None,
            r.oracle1_address is None && r.oracle2_address is None,
    {
        Indexer {
            pools: Ledger::new(),
            xrd,
            indexer_token,
            index_token_counter: Decimal::zero(),
            transient_resource,
            ociswap_address: None,
            radex_address: None,
            oracle1_address: None,
            oracle2_address: None,
        }
    }

    /// The balance of the index pool of `resource`, if the index has one.
    pub fn balance(&self, resource: u64) -> (r: Option<Decimal>)
        requires
            self.wf(),
        ensures
            r is Some <==> self.pools@.dom().contains(resource),
            r matches Some(v) ==> v@ == self.pools@[resource],
    {
        self.pools.get(resource)
    }

    /// Opens an empty pool for `resource`, replacing a pool it had.
    pub fn create_index_pool(&mut self, resource: u64)
        requires
            old(self).wf(),
        ensures
            final(self).wf(),
            final(self).pools@ == old(self).pools@.insert(resource, 0),
            *final(self) == (Indexer { pools: final(self).pools, ..*old(self) }),
    {
        self.pools.set(resource, Decimal::zero());
    }

    /// Sets the Ociswap exchange's address.
    pub fn oci_address(&mut self, address: u64)
        ensures
            *final(self) == (Indexer { ociswap_address: Some(address), ..*old(self) }),
    {
        self.ociswap_address = Some(address);
    }

    /// Sets the RaDEX exchange's address.
    pub fn radex_address(&mut self, address: u64)
        ensures
            *final(self) == (Indexer { radex_address: Some(address), ..*old(self) }),
    {
        self.radex_address = Some(address);
    }

    /// Sets the first oracle's address.
    pub fn oracle1_address(&mut self, address: u64)
        ensures
            *final(self) == (Indexer { oracle1_address: Some(address), ..*old(self) }),
    {
        self.oracle1_address = Some(address);
    }

    /// Sets the second oracle's address.
    pub fn oracle2_address(&mut self, address: u64)
        ensures
            *final(self) == (Indexer { oracle2_address: Some(address), ..*old(self) }),
    {
        self.oracle2_address = Some(address);
    }

    /// The price of `token` at the first oracle, `oracle`.
    pub fn get_price_oracle1(&self, oracle: &PriceOracle, token: u64) -> (r: Result<
        Decimal,
        IndexerError,
    >)
        requires
            oracle.wf(),
        ensures
            self.oracle1_address is None ==> r == Err::<Decimal, IndexerError>(
                IndexerError::NoOracle,
            ),
            self.oracle1_address is Some && !oracle.prices@.dom().contains(token) ==> r == Err::<
                Decimal,
                IndexerError,
            >(IndexerError::UnknownPrice),
            r matches Ok(p) ==> self.oracle1_address is Some && oracle.prices@.dom().contains(token)
                && p@ == oracle.prices@[token],
            r is Ok <==> self.oracle1_address is Some && oracle.prices@.dom().contains(token),
    {
        if self.oracle1_address.is_none() {
            return Err(IndexerError::NoOracle);
        }
        match oracle.get_price(token) {
            Some(p) => Ok(p),
            None => Err(IndexerError::UnknownPrice),
        }
    }

    /// The price of `token` at the second oracle, `oracle`.
    pub fn get_price_oracle2(&self, oracle: &PriceOracle, token: u64) -> (r: Result<
        Decimal,
        IndexerError,
    >)
        requires
            oracle.wf(),
        ensures
            self.oracle2_address is None ==> r == Err::<Decimal, IndexerError>(
                IndexerError::NoOracle,
            ),
            self.oracle2_address is Some && !oracle.prices@.dom().contains(token) ==> r == Err::<
                Decimal,
                IndexerError,
            >(IndexerError::UnknownPrice),
            r matches Ok(p) ==> self.oracle2_address is Some && oracle.prices@.dom().contains(token)
                && p@ == oracle.prices@[token],
            r is Ok <==> self.oracle2_address is Some && oracle.prices@.dom().contains(token),
    {
        if self.oracle2_address.is_none() {
            return Err(IndexerError::NoOracle);
        }
        match oracle.get_price(token) {
            Some(p) => Ok(p),
            None => Err(IndexerError::UnknownPrice),
        }
    }
    /// Whether some pool holds a token other than XRD.
    fn any_non_xrd(&self) -> (r: bool)
        ensures
            r == has_non_xrd(self.pools.entries@, self.xrd),
    {
        let mut i: usize = 0;
        while i < self.pools.entries.len()
            invariant
                0 <= i <= self.pools.entries@.len(),
                forall|j: int| 0 <= j < i ==> self.pools.entries@[j].0 == self.xrd,
            decreases self.pools.entries@.len() - i,
        {
            if self.pools.entries[i].0 != self.xrd {
                return true;
            }
            i = i + 1;
        }
        false
    }

    /// Deposits `amount` XRD split evenly over the pools: the XRD pool gets
    /// its share, every other pool what the swap of its share returned,
    /// `received[i]` for pool `i` (in the order of `pools.entries`). Mints
    /// index tokens equal to one share; returns the XRD left over from the
    /// split and the index tokens minted.
    #[verifier::loop_isolation(false)]
    pub fn deposit(&mut self, amount: Decimal, received: &Vec<Decimal>) -> (r: Result<
        (Decimal, Decimal),
        IndexerError,
    >)
        requires
            old(self).wf(),
            amount@ >= 0,
        ensures
            final(self).wf(),
            ({
                let es = old(self).pools.entries@;
                let n = es.len() as int;
                let per = deposit_share(amount@, n);
                let split = mul_attos(per, n * one_attos());
                let fits = deposit_fits(*old(self), amount@, received@);
                &&& n == 0 ==> r == Err::<(Decimal, Decimal), IndexerError>(
                    IndexerError::NoIndexPools,
                )
                &&& n > 0 && received@.len() != n ==> r == Err::<(Decimal, Decimal), IndexerError>(
                    IndexerError::OutcomeMismatch,
                )
                &&& n > 0 && received@.len() == n && old(self).ociswap_address is None
                    && has_non_xrd(es, old(self).xrd) ==> r == Err::<
                    (Decimal, Decimal),
                    IndexerError,
                >(IndexerError::NoExchange)
                &&& r is Ok <==> n > 0 && received@.len() == n && (old(self).ociswap_address is Some
                    || !has_non_xrd(es, old(self).xrd)) && fits
                &&& n > 0 && received@.len() == n && (old(self).ociswap_address is Some
                    || !has_non_xrd(es, old(self).xrd)) && !fits ==> r == Err::<
                    (Decimal, Decimal),
                    IndexerError,
                >(IndexerError::Arithmetic)
                &&& r is Err ==> *final(self) == *old(self)
                &&& r matches Ok(x) ==> {
                    &&& x.1@ == per
                    &&& x.0@ == amount@ - split
                    &&& final(self).index_token_counter@ == old(self).index_token_counter@ + per
                    &&& same_ids(es, final(self).pools.entries@)
                    &&& forall|i: int|
                        0 <= i < n ==> #[trigger] final(self).pools.entries@[i].1@ == es[i].1@
                            + deposit_add(es[i], old(self).xrd, per, received@[i])
                    &&& *final(self) == (Indexer {
                        pools: final(self).pools,
                        index_token_counter: final(self).index_token_counter,
                        ..*old(self)
                    })
                }
            }),
    {
        let n = self.pools.entries.len();
        if n == 0 {
            return Err(IndexerError::NoIndexPools);
        }
        if received.len() != n {
            return Err(IndexerError::OutcomeMismatch);
        }
        if self.ociswap_address.is_none() && self.any_non_xrd() {
            return Err(IndexerError::NoExchange);
        }
        let count = Decimal::from_u64(n as u64);
        let per = match amount.checked_div(count) {
            Some(x) => x,
            None => {
                return Err(IndexerError::Arithmetic);
            },
        };
        let counter = match self.index_token_counter.checked_add(per) {
            Some(x) => x,
            None => {
                return Err(IndexerError::Arithmetic);
            },
        };
        let split = match per.checked_mul(count) {
            Some(x) => x,
            None => {
                return Err(IndexerError::Arithmetic);
            },
        };
        let change = match amount.checked_sub(split) {
            Some(x) => x,
            None => {
                return Err(IndexerError::Arithmetic);
            },
        };
        let ghost es = self.pools.entries@;
        let mut out: Vec<(u64, Decimal)> = Vec::new();
        let mut i: usize = 0;
        while i < n
            invariant
                n == es.len() == received@.len(),
                es == self.pools.entries@,
                0 <= i <= n,
                out@.len() == i,
                forall|j: int| 0 <= j < i ==> #[trigger] out@[j].0 == es[j].0,
                forall|j: int|
                    0 <= j < i ==> #[trigger] out@[j].1@ == es[j].1@ + deposit_add(
                        es[j],
                        self.xrd,
                        per@,
                        received@[j],
                    ),
                forall|j: int|
                    0 <= j < i ==> #[trigger] in_range(
                        es[j].1@ + deposit_add(es[j], self.xrd, per@, received@[j]),
                    ),
            decreases n - i,
        {
            let e = self.pools.entries[i];
            let add = if e.0 == self.xrd {
                per
            } else {
                received[i]
            };
            match e.1.checked_add(add) {
                Some(b) => {
                    assert(e == es[i as int]);
                    assert(b@ == es[i as int].1@ + deposit_add(
                        es[i as int],
                        self.xrd,
                        per@,
                        received@[i as int],
                    ));
                    let ghost prev = out@;
                    out.push((e.0, b));
                    assert forall|j: int| 0 <= j < i + 1 implies #[trigger] out@[j].1@ == es[j].1@
                        + deposit_add(es[j], self.xrd, per@, received@[j]) by {
                        if j < i {
                            assert(out@[j] == prev[j]);
                        }
                    }
                },
                None => {
                    assert(!in_range(
                        es[i as int].1@ + deposit_add(es[i as int], self.xrd, per@, received@[i as int]),
                    ));
                    return Err(IndexerError::Arithmetic);
                },
            }
            i = i + 1;
        }
        proof {
            lemma_same_ids_distinct(es, out@);
        }
        self.pools = Ledger { entries: out };
        self.index_token_counter = counter;
        Ok((change, per))
    }

    /// Redeems `amount` index tokens (of resource `token`) for the same
    /// share of every pool: the share is the tokens over the index tokens
    /// outstanding. Returns the tokens taken from each pool, in the order
    /// of `pools.entries`; those of other pools than XRD are then swapped
    /// to XRD outside this component.
    #[verifier::loop_isolation(false)]
    pub fn withdraw(&mut self, token: u64, amount: Decimal) -> (r: Result<Vec<Decimal>, IndexerError>)
        requires
            old(self).wf(),
        ensures
            final(self).wf(),
            ({
                let es = old(self).pools.entries@;
                let n = es.len() as int;
                let c = old(self).index_token_counter@;
                let pct = div_attos(amount@, c);
                let takes = take_fold(es, pct, n);
                let arith = c != 0 && in_range(pct) && in_range(c - amount@);
                &&& token != old(self).indexer_token ==> r == Err::<Vec<Decimal>, IndexerError>(
                    IndexerError::WrongToken,
                )
                &&& token == old(self).indexer_token && !arith ==> r == Err::<
                    Vec<Decimal>,
                    IndexerError,
                >(IndexerError::Arithmetic)
                &&& token == old(self).indexer_token && arith && old(self).ociswap_address is None
                    && has_non_xrd(es, old(self).xrd) ==> r == Err::<Vec<Decimal>, IndexerError>(
                    IndexerError::NoExchange,
                )
                &&& token == old(self).indexer_token && arith && (old(self).ociswap_address is Some
                    || !has_non_xrd(es, old(self).xrd)) && takes is None ==> r == Err::<
                    Vec<Decimal>,
                    IndexerError,
                >(IndexerError::InsufficientLiquidity)
                &&& r is Ok <==> token == old(self).indexer_token && arith && (old(
                    self,
                ).ociswap_address is Some || !has_non_xrd(es, old(self).xrd)) && takes is Some
                &&& r is Err ==> *final(self) == *old(self)
                &&& r matches Ok(v) ==> {
                    &&& v@.len() == n
                    &&& forall|i: int| 0 <= i < n ==> #[trigger] v@[i]@ == takes.unwrap()[i]
                    &&& final(self).index_token_counter@ == c - amount@
                    &&& same_ids(es, final(self).pools.entries@)
                    &&& forall|i: int|
                        0 <= i < n ==> #[trigger] final(self).pools.entries@[i].1@ == es[i].1@
                            - takes.unwrap()[i]
                    &&& *final(self) == (Indexer {
                        pools: final(self).pools,
                        index_token_counter: final(self).index_token_counter,
                        ..*old(self)
                    })
                }
            }),
    {
        if token != self.indexer_token {
            return Err(IndexerError::WrongToken);
        }
        let pct = match amount.checked_div(self.index_token_counter) {
            Some(x) => x,
            None => {
                return Err(IndexerError::Arithmetic);
            },
        };
        let counter = match self.index_token_counter.checked_sub(amount) {
            Some(x) => x,
            None => {
                return Err(IndexerError::Arithmetic);
            },
        };
        if self.ociswap_address.is_none() && self.any_non_xrd() {
            return Err(IndexerError::NoExchange);
        }
        let ghost es = self.pools.entries@;
        let n = self.pools.entries.len();
        let mut takes: Vec<Decimal> = Vec::new();
        let mut out: Vec<(u64, Decimal)> = Vec::new();
        let mut i: usize = 0;
        while i < n
            invariant
                n == es.len(),
                es == self.pools.entries@,
                0 <= i <= n,
                take_fold(es, pct@, i as int) is Some,
                take_fold(es, pct@, i as int).unwrap().len() == i,
                takes@.len() == i,
                out@.len() == i,
                forall|j: int|
                    0 <= j < i ==> #[trigger] takes@[j]@ == take_fold(es, pct@, i as int).unwrap()[j],
                forall|j: int| 0 <= j < i ==> #[trigger] out@[j].0 == es[j].0,
                forall|j: int| 0 <= j < i ==> #[trigger] out@[j].1@ == es[j].1@ - takes@[j]@,
            decreases n - i,
        {
            let ghost acc = take_fold(es, pct@, i as int).unwrap();
            let e = self.pools.entries[i];
            let x = match e.1.checked_mul(pct) {
                Some(x) => x,
                None => {
                    proof {
                        lemma_take_fold_none(es, pct@, i + 1, n as int);
                    }
                    return Err(IndexerError::InsufficientLiquidity);
                },
            };
            if x.lt(Decimal::zero()) || x.gt(e.1) {
                proof {
                    lemma_take_fold_none(es, pct@, i + 1, n as int);
                }
                return Err(IndexerError::InsufficientLiquidity);
            }
            let ghost prev_out = out@;
            let ghost prev_takes = takes@;
            let left = e.1.sub(x);
            takes.push(x);
            out.push((e.0, left));
            assert(e == es[i as int]);
            assert forall|j: int| 0 <= j < i + 1 implies #[trigger] out@[j].1@ == es[j].1@
                - takes@[j]@ by {
                if j < i {
                    assert(out@[j] == prev_out[j]);
                    assert(takes@[j] == prev_takes[j]);
                    assert(prev_out[j].1@ == es[j].1@ - prev_takes[j]@);
                } else {
                    assert(out@[j] == (e.0, left));
                    assert(takes@[j] == x);
                }
            }
            proof {
                let acc2 = take_fold(es, pct@, i + 1).unwrap();
                assert(acc2 == acc.push(x@));
                assert forall|j: int| 0 <= j < i + 1 implies #[trigger] takes@[j]@ == acc2[j] by {
                    if j < i {
                        assert(takes@[j]@ == acc[j]);
                    }
                }
            }
            i = i + 1;
        }
        proof {
            lemma_same_ids_distinct(es, out@);
        }
        self.pools = Ledger { entries: out };
        self.index_token_counter = counter;
        Ok(takes)
    }

    /// Lends `loan_amount` of the pool of `token` as a flash loan: returns
    /// the loan and the terms of its promise token (the loan times 1.04).
    pub fn take_loan(&mut self, loan_amount: Decimal, token: u64) -> (r: Result<
        (Decimal, LoanDue),
        IndexerError,
    >)
        requires
            old(self).wf(),
        ensures
            final(self).wf(),
            ({
                let pools = old(self).pools@;
                let due = mul_attos(loan_amount@, index_loan_factor());
                &&& !pools.dom().contains(token) ==> r == Err::<(Decimal, LoanDue), IndexerError>(
                    IndexerError::NoSuchPool,
                )
                &&& pools.dom().contains(token) && loan_amount@ < 0 ==> r == Err::<
                    (Decimal, LoanDue),
                    IndexerError,
                >(IndexerError::InvalidAmount)
                &&& pools.dom().contains(token) && 0 <= loan_amount@ && loan_amount@ > pools[token]
                    ==> r == Err::<
                    (Decimal, LoanDue),
                    IndexerError,
                >(IndexerError::InsufficientLiquidity)
                &&& pools.dom().contains(token) && 0 <= loan_amount@ <= pools[token] && !in_range(
                    due,
                ) ==> r == Err::<(Decimal, LoanDue), IndexerError>(IndexerError::Arithmetic)
                &&& r is Ok <==> pools.dom().contains(token) && 0 <= loan_amount@ <= pools[token]
                    && in_range(due)
                &&& r is Err ==> *final(self) == *old(self)
                &&& r matches Ok(x) ==> {
                    &&& x.0 == loan_amount
                    &&& x.1.amount_due@ == due
                    &&& final(self).pools@ == pools.insert(token, pools[token] - loan_amount@)
                    &&& *final(self) == (Indexer { pools: final(self).pools, ..*old(self) })
                }
            }),
    {
        let balance = match self.pools.get(token) {
            Some(b) => b,
            None => {
                return Err(IndexerError::NoSuchPool);
            },
        };
        if loan_amount.lt(Decimal::zero()) {
            return Err(IndexerError::InvalidAmount);
        }
        if loan_amount.gt(balance) {
            return Err(IndexerError::InsufficientLiquidity);
        }
        let due = match loan_amount.checked_mul(Decimal::from_attos(1_040_000_000_000_000_000i128)) {
            Some(d) => d,
            None => {
                return Err(IndexerError::Arithmetic);
            },
        };
        self.pools.set(token, balance.sub(loan_amount));
        Ok((loan_amount, LoanDue { amount_due: due }))
    }

    /// Takes back a flash loan: `loan_repayment` tokens of `token` against
    /// the promise token of resource `terms_resource` with data `terms`. The
    /// amount due goes back to the token's pool; returns the rest of the
    /// repayment.
    pub fn repay_loan(
        &mut self,
        loan_repayment: Decimal,
        token: u64,
        terms_resource: u64,
        terms: LoanDue,
    ) -> (r: Result<Decimal, IndexerError>)
        requires
            old(self).wf(),
        ensures
            final(self).wf(),
            ({
                let pools = old(self).pools@;
                let due = terms.amount_due@;
                &&& terms_resource != old(self).transient_resource ==> r == Err::<
                    Decimal,
                    IndexerError,
                >(IndexerError::WrongLoanTerms)
                &&& terms_resource == old(self).transient_resource && loan_repayment@ < due ==> r
                    == Err::<Decimal, IndexerError>(IndexerError::InsufficientRepayment)
                &&& terms_resource == old(self).transient_resource && loan_repayment@ >= due
                    && due < 0 ==> r == Err::<Decimal, IndexerError>(IndexerError::InvalidAmount)
                &&& terms_resource == old(self).transient_resource && 0 <= due <= loan_repayment@
                    && !pools.dom().contains(token) ==> r == Err::<Decimal, IndexerError>(
                    IndexerError::NoSuchPool,
                )
                &&& r is Ok <==> terms_resource == old(self).transient_resource && 0 <= due
                    <= loan_repayment@ && pools.dom().contains(token) && in_range(pools[token] + due)
                &&& r is Err ==> *final(self) == *old(self)
                &&& r matches Ok(change) ==> {
                    &&& change@ == loan_repayment@ - due
                    &&& final(self).pools@ == pools.insert(token, pools[token] + due)
                    &&& *final(self) == (Indexer { pools: final(self).pools, ..*old(self) })
                }
            }),
    {
        if terms_resource != self.transient_resource {
            return Err(IndexerError::WrongLoanTerms);
        }
        let due = terms.amount_due;
        if loan_repayment.lt(due) {
            return Err(IndexerError::InsufficientRepayment);
        }
        if due.lt(Decimal::zero()) {
            return Err(IndexerError::InvalidAmount);
        }
        let balance = match self.pools.get(token) {
            Some(b) => b,
            None => {
                return Err(IndexerError::NoSuchPool);
            },
        };
        let nb = match balance.checked_add(due) {
            Some(x) => x,
            None => {
                return Err(IndexerError::Arithmetic);
            },
        };
        self.pools.set(token, nb);
        Ok(loan_repayment.sub(due))
    }

    /// Helps a flash loan borrower: returns their `amount` tokens together
    /// with the amount, a tenth of theirs, that is removed from the
    /// exchange's pool for them.
    pub fn opportunity(&self, amount: Decimal) -> (r: Result<(Decimal, Decimal), IndexerError>)
        ensures
            self.ociswap_address is None ==> r == Err::<(Decimal, Decimal), IndexerError>(
                IndexerError::NoExchange,
            ),
            self.ociswap_address is Some && !in_range(mul_attos(amount@, one_attos() / 10)) ==> r
                == Err::<(Decimal, Decimal), IndexerError>(IndexerError::Arithmetic),
            r is Ok <==> self.ociswap_address is Some && in_range(
                mul_attos(amount@, one_attos() / 10),
            ),
            r matches Ok(x) ==> x.0 == amount && x.1@ == mul_attos(amount@, one_attos() / 10),
    {
        if self.ociswap_address.is_none() {
            return Err(IndexerError::NoExchange);
        }
        match amount.checked_mul(Decimal::from_attos(100_000_000_000_000_000i128)) {
            Some(t) => Ok((amount, t)),
            None => Err(IndexerError::Arithmetic),
        }
    }

    /// Books an arbitrage of the pool of `token` between the two
    /// exchanges: the whole pool was sold on Ociswap and bought back on
    /// RaDEX, which returned `returned` tokens; they become the pool.
    /// Returns the profit, `returned` less the pool before.
    pub fn arb_oci_radex(&mut self, token: u64, returned: Decimal) -> (r: Result<Decimal, IndexerError>)
        requires
            old(self).wf(),
        ensures
            final(self).wf(),
            ({
                let pools = old(self).pools@;
                let exchanges = old(self).ociswap_address is Some && old(self).radex_address is Some;
                &&& !pools.dom().contains(token) ==> r == Err::<Decimal, IndexerError>(
                    IndexerError::NoSuchPool,
                )
                &&& pools.dom().contains(token) && !exchanges ==> r == Err::<Decimal, IndexerError>(
                    IndexerError::NoExchange,
                )
                &&& r is Ok <==> pools.dom().contains(token) && exchanges && in_range(
                    returned@ - pools[token],
                )
                &&& r is Err ==> *final(self) == *old(self)
                &&& r matches Ok(p) ==> {
                    &&& p@ == returned@ - pools[token]
                    &&& final(self).pools@ == pools.insert(token, returned@)
                    &&& *final(self) == (Indexer { pools: final(self).pools, ..*old(self) })
                }
            }),
    {
        let balance = match self.pools.get(token) {
            Some(b) => b,
            None => {
                return Err(IndexerError::NoSuchPool);
            },
        };
        if self.ociswap_address.is_none() || self.radex_address.is_none() {
            return Err(IndexerError::NoExchange);
        }
        let profit = match returned.checked_sub(balance) {
            Some(x) => x,
            None => {
                return Err(IndexerError::Arithmetic);
            },
        };
        self.pools.set(token, returned);
        Ok(profit)
    }

    /// A copy of the index, holding the same values.
    pub fn duplicate(&self) -> (r: Indexer)
        ensures
            r.pools.entries@ == self.pools.entries@,
            r == (Indexer { pools: r.pools, ..*self }),
    {
        Indexer {
            pools: self.pools.duplicate(),
            xrd: self.xrd,
            indexer_token: self.indexer_token,
            index_token_counter: self.index_token_counter,
            transient_resource: self.transient_resource,
            ociswap_address: self.ociswap_address,
            radex_address: self.radex_address,
            oracle1_address: self.oracle1_address,
            oracle2_address: self.oracle2_address,
        }
    }

    /// Deposits `amount` XRD as `deposit` does, making the swaps through
    /// the exchange `dex` at the oracle's prices (see
    /// `deposit_through_result`); returns the XRD left over and the index
    /// tokens minted. Refused, with the index and the exchange unchanged,
    /// when a check or a swap fails or an amount overflows.
    pub fn deposit_through_exchange(
        &mut self,
        amount: Decimal,
        dex: &mut OracleDex,
        oracle: &PriceOracle,
    ) -> (r: Result<(Decimal, Decimal), IndexerError>)
        requires
            old(self).wf(),
            old(dex).wf(),
            oracle.wf(),
            amount@ >= 0,
        ensures
            final(self).wf(),
            final(dex).wf(),
            ({
                let res = deposit_through_result(*old(self), old(dex).pools@, oracle.prices@, amount@);
                let es = old(self).pools.entries@;
                let n = es.len() as int;
                let per = deposit_share(amount@, n);
                &&& r is Ok <==> (res matches Ok(x) && deposit_fits(*old(self), amount@, x.1))
                &&& r matches Err(e) ==> *final(self) == *old(self) && final(dex).pools@ == old(
                    dex).pools@ && (res == Err::<(Map<u64, int>, Seq<Decimal>), IndexerError>(e)
                    || (res is Ok && e == IndexerError::Arithmetic))
                &&& r matches Ok(x) ==> {
                    let got = res.unwrap().1;
                    &&& final(dex).pools@ == res.unwrap().0
                    &&& x.1@ == per
                    &&& x.0@ == amount@ - mul_attos(per, n * one_attos())
                    &&& final(self).index_token_counter@ == old(self).index_token_counter@ + per
                    &&& same_ids(es, final(self).pools.entries@)
                    &&& forall|i: int|
                        0 <= i < n ==> #[trigger] final(self).pools.entries@[i].1@ == es[i].1@
                            + deposit_add(es[i], old(self).xrd, per, got[i])
                    &&& *final(self) == (Indexer {
                        pools: final(self).pools,
                        index_token_counter: final(self).index_token_counter,
                        ..*old(self)
                    })
                }
            }),
    {
        let n = self.pools.entries.len();
        if n == 0 {
            return Err(IndexerError::NoIndexPools);
        }
        if self.ociswap_address.is_none() && self.any_non_xrd() {
            return Err(IndexerError::NoExchange);
        }
        let per = match amount.checked_div(Decimal::from_u64(n as u64)) {
            Some(x) => x,
            None => {
                return Err(IndexerError::Arithmetic);
            },
        };
        let ghost es = self.pools.entries@;
        let ghost d0 = dex.pools@;
        let saved = dex.pools.duplicate();
        let mut got: Vec<Decimal> = Vec::new();
        let mut i: usize = 0;
        while i < n
            invariant
                n == es.len(),
                es == self.pools.entries@,
                d0 == old(dex).pools@,
                saved.entries@ == old(dex).pools.entries@,
                old(dex).wf(),
                dex.wf(),
                oracle.wf(),
                self.wf(),
                *self == *old(self),
                n > 0,
                per@ == deposit_share(amount@, es.len() as int),
                !(old(self).ociswap_address is None && has_non_xrd(es, old(self).xrd)),
                es == old(self).pools.entries@,
                0 <= i <= n,
                deposit_swaps(d0, oracle.prices@, es, self.xrd, per@, i as int) == Ok::<
                    (Map<u64, int>, Seq<Decimal>),
                    IndexerError,
                >((dex.pools@, got@)),
            decreases n - i,
        {
            let t = self.pools.entries[i].0;
            if t == self.xrd {
                got.push(Decimal::zero());
            } else {
                match dex.checked_swap(oracle, self.xrd, per, t) {
                    Ok(x) => {
                        got.push(x);
                    },
                    Err(e) => {
                        proof {
                            lemma_deposit_swaps_err(d0, oracle.prices@, es, self.xrd, per@, i + 1, n as int);
                        }
                        dex.pools = saved;
                        return Err(IndexerError::Exchange(e));
                    },
                }
            }
            i = i + 1;
        }
        proof {
            lemma_deposit_swaps_len(d0, oracle.prices@, es, self.xrd, per@, n as int);
        }
        match self.deposit(amount, &got) {
            Ok(x) => Ok(x),
            Err(e) => {
                dex.pools = saved;
                Err(e)
            },
        }
    }

    /// Redeems `amount` index tokens of resource `token` as `withdraw`
    /// does and swaps each pool's take other than XRD's for XRD on the
    /// exchange `dex` at the oracle's prices (see `withdraw_swaps`); returns
    /// the XRD collected. Refused, with the index and the exchange
    /// unchanged, when the withdrawal or a swap fails or an amount
    /// overflows.
    pub fn withdraw_through_exchange(
        &mut self,
        token: u64,
        amount: Decimal,
        dex: &mut OracleDex,
        oracle: &PriceOracle,
    ) -> (r: Result<Decimal, IndexerError>)
        requires
            old(self).wf(),
            old(dex).wf(),
            oracle.wf(),
        ensures
            final(self).wf(),
            final(dex).wf(),
            ({
                let es = old(self).pools.entries@;
                let n = es.len() as int;
                let c = old(self).index_token_counter@;
                let pct = div_attos(amount@, c);
                let takes = take_fold(es, pct, n).unwrap();
                let sw = withdraw_swaps(old(dex).pools@, oracle.prices@, es, old(self).xrd, takes, n);
                &&& r is Ok <==> withdraw_ok(*old(self), token, amount@) && sw is Ok
                &&& r is Err ==> final(self).pools.entries@ == old(self).pools.entries@ && *final(self)
                    == (Indexer { pools: final(self).pools, ..*old(self) }) && final(dex).pools@ == old(
                    dex).pools@
                &&& !withdraw_ok(*old(self), token, amount@) ==> r == Err::<Decimal, IndexerError>(
                    withdraw_error(*old(self), token, amount@),
                )
                &&& withdraw_ok(*old(self), token, amount@) ==> (sw matches Err(e) ==> r == Err::<
                    Decimal,
                    IndexerError,
                >(e))
                &&& r matches Ok(x) ==> {
                    &&& x@ == sw.unwrap().1
                    &&& final(dex).pools@ == sw.unwrap().0
                    &&& final(self).index_token_counter@ == c - amount@
                    &&& same_ids(es, final(self).pools.entries@)
                    &&& forall|i: int|
                        0 <= i < n ==> #[trigger] final(self).pools.entries@[i].1@ == es[i].1@
                            - takes[i]
                    &&& *final(self) == (Indexer {
                        pools: final(self).pools,
                        index_token_counter: final(self).index_token_counter,
                        ..*old(self)
                    })
                }
            }),
    {
        let ghost es = self.pools.entries@;
        let ghost takes_spec = take_fold(es, div_attos(amount@, self.index_token_counter@), es.len() as int).unwrap();
        let saved = self.duplicate();
        let takes = match self.withdraw(token, amount) {
            Ok(v) => v,
            Err(e) => {
                return Err(e);
            },
        };
        proof {
            lemma_take_fold_len(es, div_attos(amount@, old(self).index_token_counter@), es.len() as int);
        }
        assert(withdraw_ok(*old(self), token, amount@));
        assert(dec_seq(takes@) =~= takes_spec);
        let ghost s1 = *self;
        let ghost d0 = dex.pools@;
        let saved_dex = dex.pools.duplicate();
        let n = takes.len();
        let mut total = Decimal::zero();
        let mut i: usize = 0;
        while i < n
            invariant
                n == es.len() == takes@.len(),
                es == saved.pools.entries@,
                dec_seq(takes@) == takes_spec,
                d0 == old(dex).pools@,
                saved_dex.entries@ == old(dex).pools.entries@,
                old(dex).wf(),
                old(self).wf(),
                saved == (Indexer { pools: saved.pools, ..*old(self) }),
                saved.pools.entries@ == old(self).pools.entries@,
                dex.wf(),
                oracle.wf(),
                self.wf(),
                *self == s1,
                withdraw_ok(*old(self), token, amount@),
                es == old(self).pools.entries@,
                takes_spec == take_fold(es, div_attos(amount@, old(self).index_token_counter@), es.len() as int).unwrap(),
                0 <= i <= n,
                withdraw_swaps(d0, oracle.prices@, es, saved.xrd, takes_spec, i as int) == Ok::<
                    (Map<u64, int>, int),
                    IndexerError,
                >((dex.pools@, total@)),
            decreases n - i,
        {
            let t = saved.pools.entries[i].0;
            assert(takes_spec[i as int] == takes@[i as int]@);
            if t == saved.xrd {
                match total.checked_add(takes[i]) {
                    Some(x) => {
                        total = x;
                    },
                    None => {
                        proof {
                            lemma_withdraw_swaps_err(d0, oracle.prices@, es, saved.xrd, takes_spec, i + 1, n as int);
                        }
                        *self = saved;
                        dex.pools = saved_dex;
                        return Err(IndexerError::Arithmetic);
                    },
                }
            } else {
                match dex.checked_swap(oracle, t, takes[i], saved.xrd) {
                    Ok(x) => {
                        match total.checked_add(x) {
                            Some(y) => {
                                total = y;
                            },
                            None => {
                                proof {
                                    lemma_withdraw_swaps_err(d0, oracle.prices@, es, saved.xrd, takes_spec, i + 1, n as int);
                                }
                                *self = saved;
                                dex.pools = saved_dex;
                                return Err(IndexerError::Arithmetic);
                            },
                        }
                    },
                    Err(e) => {
                        proof {
                            lemma_withdraw_swaps_err(d0, oracle.prices@, es, saved.xrd, takes_spec, i + 1, n as int);
                        }
                        *self = saved;
                        dex.pools = saved_dex;
                        return Err(IndexerError::Exchange(e));
                    },
                }
            }
            i = i + 1;
        }
        Ok(total)
    }

    /// Runs the arbitrage of the pool of `token` between the two exchanges
    /// (see `arb_result`) and books it as `arb_oci_radex` does; returns the
    /// profit. Refused, with the index and both exchanges unchanged, when a
    /// check or a swap fails or the profit overflows.
    pub fn arb_through_exchanges(
        &mut self,
        token: u64,
        oci: &mut OracleDex,
        radex: &mut OracleDex,
        oracle1: &PriceOracle,
        oracle2: &PriceOracle,
    ) -> (r: Result<Decimal, IndexerError>)
        requires
            old(self).wf(),
            old(oci).wf(),
            old(radex).wf(),
            oracle1.wf(),
            oracle2.wf(),
        ensures
            final(self).wf(),
            final(oci).wf(),
            final(radex).wf(),
            match arb_result(*old(self), old(oci).pools@, old(radex).pools@, oracle1.prices@, oracle2.prices@, token) {
                Err(e) => r == Err::<Decimal, IndexerError>(e) && *final(self) == *old(self)
                    && final(oci).pools@ == old(oci).pools@ && final(radex).pools@ == old(
                    radex).pools@,
                Ok(x) => r matches Ok(p) && p@ == x.2 - old(self).pools@[token] && final(
                    oci).pools@ == x.0 && final(radex).pools@ == x.1 && final(self).pools@ == old(
                    self).pools@.insert(token, x.2) && *final(self) == (Indexer {
                    pools: final(self).pools,
                    ..*old(self)
                }),
            },
    {
        let balance = match self.pools.get(token) {
            Some(b) => b,
            None => {
                return Err(IndexerError::NoSuchPool);
            },
        };
        if self.ociswap_address.is_none() || self.radex_address.is_none() {
            return Err(IndexerError::NoExchange);
        }
        let saved_oci = oci.pools.duplicate();
        let xrd_got = match oci.checked_swap(oracle1, token, balance, self.xrd) {
            Ok(x) => x,
            Err(e) => {
                return Err(IndexerError::Exchange(e));
            },
        };
        let saved_radex = radex.pools.duplicate();
        let returned = match radex.checked_swap(oracle2, self.xrd, xrd_got, token) {
            Ok(x) => x,
            Err(e) => {
                oci.pools = saved_oci;
                return Err(IndexerError::Exchange(e));
            },
        };
        match self.arb_oci_radex(token, returned) {
            Ok(p) => Ok(p),
            Err(e) => {
                oci.pools = saved_oci;
                radex.pools = saved_radex;
                Err(e)
            },
        }
    }
}

/// A non-negative flash loan repaid with at least its amount due never
/// shrinks its pool: the amount due, the loan times 1.04, is never below
/// the loan.
pub proof fn index_loan_repaid_keeps_pool(balance: int, loan: int, repayment: int)
    requires
        0 <= loan <= balance,
        repayment >= mul_attos(loan, index_loan_factor()),
    ensures
        mul_attos(loan, index_loan_factor()) >= loan,
        balance - loan + mul_attos(loan, index_loan_factor()) >= balance,
{
    assert(loan * index_loan_factor() == loan * 1_000_000_000_000_000_000 + loan
        * 40_000_000_000_000_000) by (nonlinear_arith);
    assert((loan * 1_000_000_000_000_000_000 + loan * 40_000_000_000_000_000)
        / 1_000_000_000_000_000_000 >= loan) by (nonlinear_arith)
        requires
            loan >= 0,
    ;
}

} // verus!
