//! An index fund: a basket of token vaults valued at oracle prices, whose
//! fund tokens are issued for deposits of basket tokens and redeemed for a
//! share of every vault. Trades and liquidity moves run on an exchange in
//! another component; their outcomes reach the fund as arguments.
//!
//! A request that fails a check or overflows is refused with an
//! error and leaves the fund (and the oracle) unchanged.
use vstd::prelude::*;
use crate::decimal::{Decimal, in_range, mul_attos, div_attos, one_attos, nearest_to};
use crate::ledger::{Ledger, keys_distinct};
use crate::price_oracle::PriceOracle;

verus! {

/// Why the index fund refused a request.
#[derive(Clone, Copy, Debug, PartialEq, Eq, Structural)]
pub enum IndexFundError {
    /// The fee is outside 0..=100.
    InvalidFee,
    /// The starting share price is not above zero.
    InvalidSharePrice,
    /// The token weights do not add up to one (rounded to a tenth).
    InvalidWeights,
    /// The proof is not the fund admin's badge.
    Unauthorized,
    /// The exchange has not been integrated.
    NoExchange,
    /// The lending protocol has not been integrated.
    NoLending,
    /// The tokens are not of the kind this call takes.
    WrongToken,
    /// The fund holds no vault for this token.
    NotInFund,
    /// The vault does not hold the amount asked for.
    InsufficientLiquidity,
    /// A price is missing or a value overflows or divides by zero.
    Valuation,
    /// The fund has not registered with the lending protocol.
    NotRegistered,
    /// The fund holds no loan with this id.
    UnknownLoan,
}

/// The fund: vault balances per token, fund tokens in circulation, and the
/// addresses of the integrated exchange and lending protocol.
#[derive(Debug)]
pub struct IndexFund {
    pub fund_admin: u64,
    pub fund_trader: u64,
    pub fund_name: String,
    pub fund_ticker: String,
    pub fund_vaults: Ledger,
    pub fund_token: u64,
    pub fund_token_supply: Decimal,
    pub starting_share_price: Decimal,
    pub radex_address: Option<u64>,
    pub degenfi_address: Option<u64>,
    /// Percent of the fund's value minted as fees, 0..=100.
    pub fee_to_pool: Decimal,
    pub fee_vault: Decimal,
    /// The lending protocol's user badge, once the fund registered.
    pub degenfi_badge: Option<u64>,
    /// The lending protocol's token resource, once the fund registered.
    pub degen_token: Option<u64>,
    /// Lending-protocol tokens the fund holds.
    pub degen_tokens: Decimal,
    /// Borrowed tokens held, by token.
    pub borrow_vaults: Ledger,
    /// The loan NFT kept from the first borrow, if any.
    pub loan: Option<u64>,
}

/// `start` plus the value at `prices` of the first `n` (token, amount)
/// entries; `None` where a price is missing or a value overflows.
pub open spec fn value_fold(s: Seq<(u64, Decimal)>, prices: Map<u64, int>, start: int, n: int) -> Option<
    int,
>
    decreases n,
{
    if n <= 0 {
        Some(start)
    } else {
        match value_fold(s, prices, start, n - 1) {
            None => None,
            Some(acc) => if !prices.dom().contains(s[n - 1].0) {
                None
            } else {
                let v = mul_attos(s[n - 1].1@, prices[s[n - 1].0]);
                if in_range(v) && in_range(acc + v) {
                    Some(acc + v)
                } else {
                    None
                }
            },
        }
    }
}

/// The sum of the first `n` weights, or `None` on overflow.
pub open spec fn weight_fold(s: Seq<(u64, Decimal)>, n: int) -> Option<int>
    decreases n,
{
    if n <= 0 {
        Some(0)
    } else {
        match weight_fold(s, n - 1) {
            None => None,
            Some(acc) => if in_range(acc + s[n - 1].1@) {
                Some(acc + s[n - 1].1@)
            } else {
                None
            },
        }
    }
}

/// Fund tokens issued for the first `n` deposited buckets when the fund
/// is empty: each bucket's value over the total `total`, times the total.
pub open spec fn mint1_fold(s: Seq<(u64, Decimal)>, prices: Map<u64, int>, total: int, n: int) -> Option<
    int,
>
    decreases n,
{
    if n <= 0 {
        Some(0)
    } else {
        match mint1_fold(s, prices, total, n - 1) {
            None => None,
            Some(acc) => if !prices.dom().contains(s[n - 1].0) {
                None
            } else {
                let v = mul_attos(s[n - 1].1@, prices[s[n - 1].0]);
                let w = div_attos(v, total);
                let m = mul_attos(total, w);
                if in_range(v) && total != 0 && in_range(w) && in_range(m) && in_range(acc + m) {
                    Some(acc + m)
                } else {
                    None
                }
            },
        }
    }
}

/// Fund tokens issued for the first `n` deposited buckets when the fund
/// holds value: for each bucket, the value of its amount plus its vault's
/// balance over `cumulative` (the fund's value plus the deposit's), times
/// the deposit's value `total`.
pub open spec fn mint2_fold(
    s: Seq<(u64, Decimal)>,
    vaults: Map<u64, int>,
    prices: Map<u64, int>,
    cumulative: int,
    total: int,
    n: int,
) -> Option<int>
    decreases n,
{
    if n <= 0 {
        Some(0)
    } else {
        match mint2_fold(s, vaults, prices, cumulative, total, n - 1) {
            None => None,
            Some(acc) => if !prices.dom().contains(s[n - 1].0) || !vaults.dom().contains(
                s[n - 1].0,
            ) {
                None
            } else {
                let c = s[n - 1].1@ + vaults[s[n - 1].0];
                let v = mul_attos(c, prices[s[n - 1].0]);
                let w = div_attos(v, cumulative);
                let m = mul_attos(total, w);
                if in_range(c) && in_range(v) && cumulative != 0 && in_range(w) && in_range(m)
                    && in_range(acc + m) {
                    Some(acc + m)
                } else {
                    None
                }
            },
        }
    }
}

/// The vault balances after the first `n` buckets are deposited; `None`
/// where a token has no vault or a balance overflows.
pub open spec fn deposit_fold(s: Seq<(u64, Decimal)>, vaults: Map<u64, int>, n: int) -> Option<
    Map<u64, int>,
>
    decreases n,
{
    if n <= 0 {
        Some(vaults)
    } else {
        match deposit_fold(s, vaults, n - 1) {
            None => None,
            Some(m) => if m.dom().contains(s[n - 1].0) && in_range(m[s[n - 1].0] + s[n - 1].1@) {
                Some(m.insert(s[n - 1].0, m[s[n - 1].0] + s[n - 1].1@))
            } else {
                None
            },
        }
    }
}

/// Fund tokens issued for depositing the buckets `s` into a fund with
/// vaults `vaults` at `prices`: by `mint1_fold` when the fund's value is
/// zero, by `mint2_fold` otherwise.
pub open spec fn issue_amount(
    s: Seq<(u64, Decimal)>,
    vault_entries: Seq<(u64, Decimal)>,
    vaults: Map<u64, int>,
    prices: Map<u64, int>,
) -> Option<int> {
    match value_fold(vault_entries, prices, 0, vault_entries.len() as int) {
        None => None,
        Some(fund_value) => match value_fold(s, prices, 0, s.len() as int) {
            None => None,
            Some(total) => if fund_value == 0 {
                mint1_fold(s, prices, total, s.len() as int)
            } else {
                match value_fold(s, prices, fund_value, s.len() as int) {
                    None => None,
                    Some(cumulative) => mint2_fold(
                        s,
                        vaults,
                        prices,
                        cumulative,
                        total,
                        s.len() as int,
                    ),
                }
            },
        },
    }
}

proof fn lemma_value_fold_none(s: Seq<(u64, Decimal)>, prices: Map<u64, int>, start: int, n: int, m: int)
    requires
        0 <= n <= m,
        value_fold(s, prices, start, n) is None,
    ensures
        value_fold(s, prices, start, m) is None,
    decreases m,
{
    if n < m {
        lemma_value_fold_none(s, prices, start, n, m - 1);
    }
}

proof fn lemma_weight_fold_none(s: Seq<(u64, Decimal)>, n: int, m: int)
    requires
        0 <= n <= m,
        weight_fold(s, n) is None,
    ensures
        weight_fold(s, m) is None,
    decreases m,
{
    if n < m {
        lemma_weight_fold_none(s, n, m - 1);
    }
}

proof fn lemma_mint1_fold_none(s: Seq<(u64, Decimal)>, prices: Map<u64, int>, total: int, n: int, m: int)
    requires
        0 <= n <= m,
        mint1_fold(s, prices, total, n) is None,
    ensures
        mint1_fold(s, prices, total, m) is None,
    decreases m,
{
    if n < m {
        lemma_mint1_fold_none(s, prices, total, n, m - 1);
    }
}

proof fn lemma_mint2_fold_none(
    s: Seq<(u64, Decimal)>,
    vaults: Map<u64, int>,
    prices: Map<u64, int>,
    cumulative: int,
    total: int,
    n: int,
    m: int,
)
    requires
        0 <= n <= m,
        mint2_fold(s, vaults, prices, cumulative, total, n) is None,
    ensures
        mint2_fold(s, vaults, prices, cumulative, total, m) is None,
    decreases m,
{
    if n < m {
        lemma_mint2_fold_none(s, vaults, prices, cumulative, total, n, m - 1);
    }
}

proof fn lemma_deposit_fold_none(s: Seq<(u64, Decimal)>, vaults: Map<u64, int>, n: int, m: int)
    requires
        0 <= n <= m,
        deposit_fold(s, vaults, n) is None,
    ensures
        deposit_fold(s, vaults, m) is None,
    decreases m,
{
    if n < m {
        lemma_deposit_fold_none(s, vaults, n, m - 1);
    }
}

/// Computes `value_fold` over all of `s` at the oracle's prices.
pub(crate) fn value_of(s: &Vec<(u64, Decimal)>, oracle: &PriceOracle, start: Decimal) -> (r: Option<Decimal>)
    requires
        oracle.wf(),
    ensures
        r is Some <==> value_fold(s@, oracle.prices@, start@, s@.len() as int) is Some,
        r matches Some(v) ==> value_fold(s@, oracle.prices@, start@, s@.len() as int) == Some(v@),
{
    let mut acc = start;
    let mut i: usize = 0;
    while i < s.len()
        invariant
            oracle.wf(),
            0 <= i <= s@.len(),
            value_fold(s@, oracle.prices@, start@, i as int) == Some(acc@),
        decreases s@.len() - i,
    {
        let (token, amount) = s[i];
        let step = match oracle.get_price(token) {
            Some(p) => match amount.checked_mul(p) {
                Some(v) => acc.checked_add(v),
                None => None,
            },
            None => None,
        };
        match step {
            Some(a) => {
                acc = a;
            },
            None => {
                proof {
                    lemma_value_fold_none(s@, oracle.prices@, start@, i + 1, s@.len() as int);
                }
                return None;
            },
        }
        i = i + 1;
    }
    Some(acc)
}

/// Whether `t` is among the first `n` items of `s`.
pub open spec fn in_prefix(s: Seq<u64>, n: int, t: u64) -> bool {
    exists|k: int| 0 <= k < n && #[trigger] s[k] == t
}

/// Redeeming for fund tokens worth `tv`, over the first `n` vaults in
/// order: each vault returns `tv` times its share of the fund's value,
/// revalued after the vaults before it paid out. Gives the vaults after
/// and the amounts returned; `None` where a price is missing, a value
/// overflows or a vault does not cover its part.
pub open spec fn redeem_fold(es: Seq<(u64, Decimal)>, prices: Map<u64, int>, tv: int, n: int) -> Option<
    (Seq<(u64, Decimal)>, Seq<int>),
>
    decreases n,
{
    if n <= 0 {
        Some((es, Seq::empty()))
    } else {
        match redeem_fold(es, prices, tv, n - 1) {
            None => None,
            Some(acc) => {
                let cur = acc.0;
                match value_fold(cur, prices, 0, cur.len() as int) {
                    None => None,
                    Some(c) => {
                        let e = cur[n - 1];
                        if !prices.dom().contains(e.0) {
                            None
                        } else {
                            let cv = mul_attos(prices[e.0], e.1@);
                            let w = div_attos(cv, c);
                            let ret = mul_attos(tv, w);
                            if in_range(cv) && c != 0 && in_range(w) && in_range(ret) && 0 <= ret
                                <= e.1@ {
                                Some(
                                    (
                                        cur.update(n - 1, (e.0, Decimal { attos: (e.1@ - ret) as i128 })),
                                        acc.1.push(ret),
                                    ),
                                )
                            } else {
                                None
                            }
                        }
                    },
                }
            },
        }
    }
}

proof fn lemma_redeem_fold(es: Seq<(u64, Decimal)>, prices: Map<u64, int>, tv: int, n: int)
    requires
        0 <= n <= es.len(),
        redeem_fold(es, prices, tv, n) is Some,
    ensures
        redeem_fold(es, prices, tv, n).unwrap().0.len() == es.len(),
        redeem_fold(es, prices, tv, n).unwrap().1.len() == n,
        forall|i: int|
            0 <= i < es.len() ==> #[trigger] redeem_fold(es, prices, tv, n).unwrap().0[i].0
                == es[i].0,
    decreases n,
{
    if n > 0 {
        lemma_redeem_fold(es, prices, tv, n - 1);
    }
}

proof fn lemma_redeem_fold_none(es: Seq<(u64, Decimal)>, prices: Map<u64, int>, tv: int, n: int, m: int)
    requires
        0 <= n <= m,
        redeem_fold(es, prices, tv, n) is None,
    ensures
        redeem_fold(es, prices, tv, m) is None,
    decreases m,
{
    if n < m {
        lemma_redeem_fold_none(es, prices, tv, n, m - 1);
    }
}

/// The weight of a vault in a fund worth `c`: its value over `c`.
pub open spec fn weight_of(e: (u64, Decimal), prices: Map<u64, int>, c: int) -> Option<int> {
    if !prices.dom().contains(e.0) {
        None
    } else {
        let v = mul_attos(e.1@, prices[e.0]);
        let w = div_attos(v, c);
        if in_range(v) && c != 0 && in_range(w) {
            Some(w)
        } else {
            None
        }
    }
}

/// A copy of a list of entries.
fn copy_entries(v: &Vec<(u64, Decimal)>) -> (r: Vec<(u64, Decimal)>)
    ensures
        r@ == v@,
{
    let mut out: Vec<(u64, Decimal)> = Vec::new();
    let mut i: usize = 0;
    while i < v.len()
        invariant
            0 <= i <= v@.len(),
            out@ == v@.subrange(0, i as int),
        decreases v@.len() - i,
    {
        out.push(v[i]);
        i = i + 1;
        assert(out@ =~= v@.subrange(0, i as int));
    }
    assert(v@.subrange(0, v@.len() as int) =~= v@);
    out
}

/// Computes `mint1_fold` over all of `s`.
fn mint1_of(s: &Vec<(u64, Decimal)>, oracle: &PriceOracle, total: Decimal) -> (r: Option<Decimal>)
    requires
        oracle.wf(),
    ensures
        r is Some <==> mint1_fold(s@, oracle.prices@, total@, s@.len() as int) is Some,
        r matches Some(v) ==> mint1_fold(s@, oracle.prices@, total@, s@.len() as int) == Some(v@),
{
    let mut acc = Decimal::zero();
    let mut i: usize = 0;
    while i < s.len()
        invariant
            oracle.wf(),
            0 <= i <= s@.len(),
            mint1_fold(s@, oracle.prices@, total@, i as int) == Some(acc@),
        decreases s@.len() - i,
    {
        let (token, amount) = s[i];
        let step = match oracle.get_price(token) {
            Some(p) => match amount.checked_mul(p) {
                Some(v) => match v.checked_div(total) {
                    Some(w) => match total.checked_mul(w) {
                        Some(m) => acc.checked_add(m),
                        None => None,
                    },
                    None => None,
                },
                None => None,
            },
            None => None,
        };
        match step {
            Some(a) => {
                acc = a;
            },
            None => {
                proof {
                    lemma_mint1_fold_none(s@, oracle.prices@, total@, i + 1, s@.len() as int);
                }
                return None;
            },
        }
        i = i + 1;
    }
    Some(acc)
}

/// Computes `mint2_fold` over all of `s`.
fn mint2_of(
    s: &Vec<(u64, Decimal)>,
    vaults: &Ledger,
    oracle: &PriceOracle,
    cumulative: Decimal,
    total: Decimal,
) -> (r: Option<Decimal>)
    requires
        oracle.wf(),
        vaults.wf(),
    ensures
        r is Some <==> mint2_fold(s@, vaults@, oracle.prices@, cumulative@, total@, s@.len() as int) is Some,
        r matches Some(v) ==> mint2_fold(
            s@,
            vaults@,
            oracle.prices@,
            cumulative@,
            total@,
            s@.len() as int,
        ) == Some(v@),
{
    let mut acc = Decimal::zero();
    let mut i: usize = 0;
    while i < s.len()
        invariant
            oracle.wf(),
            vaults.wf(),
            0 <= i <= s@.len(),
            mint2_fold(s@, vaults@, oracle.prices@, cumulative@, total@, i as int) == Some(acc@),
        decreases s@.len() - i,
    {
        let (token, amount) = s[i];
        let step = match (oracle.get_price(token), vaults.get(token)) {
            (Some(p), Some(held)) => match amount.checked_add(held) {
                Some(c) => match c.checked_mul(p) {
                    Some(v) => match v.checked_div(cumulative) {
                        Some(w) => match total.checked_mul(w) {
                            Some(m) => acc.checked_add(m),
                            None => None,
                        },
                        None => None,
                    },
                    None => None,
                },
                None => None,
            },
            _ => None,
        };
        match step {
            Some(a) => {
                acc = a;
            },
            None => {
                proof {
                    lemma_mint2_fold_none(
                        s@,
                        vaults@,
                        oracle.prices@,
                        cumulative@,
                        total@,
                        i + 1,
                        s@.len() as int,
                    );
                }
                return None;
            },
        }
        i = i + 1;
    }
    Some(acc)
}

/// Whether `t` is in the fund, as an exec check.
fn all_in_fund(s: &Vec<(u64, Decimal)>, vaults: &Ledger) -> (r: bool)
    requires
        vaults.wf(),
    ensures
        r == forall|i: int| 0 <= i < s@.len() ==> #[trigger] vaults@.dom().contains(s@[i].0),
{
    let mut i: usize = 0;
    while i < s.len()
        invariant
            vaults.wf(),
            0 <= i <= s@.len(),
            forall|j: int| 0 <= j < i ==> #[trigger] vaults@.dom().contains(s@[j].0),
        decreases s@.len() - i,
    {
        if !vaults.contains(s[i].0) {
            return false;
        }
        i = i + 1;
    }
    true
}

/// Rounds to one decimal place, to the nearest, halfway away from zero.
pub open spec fn round_tenths(v: int) -> int {
    nearest_to(v, 100_000_000_000_000_000)
}

/// The checks of a call into the lending protocol, in order: the fund
/// admin's badge, then the protocol integrated.
pub open spec fn lending_check(f: IndexFund, fund_admin: u64) -> Result<(), IndexFundError> {
    if fund_admin != f.fund_admin {
        Err(IndexFundError::Unauthorized)
    } else if f.degenfi_address is None {
        Err(IndexFundError::NoLending)
    } else {
        Ok(())
    }
}

/// Moving `amount` of the fund's `token` into the lending protocol, which
/// returned `degen` of its tokens: the vaults and the protocol tokens held
/// after; or why the call is refused (after `lending_check`: the token is
/// not in the fund, its vault does not hold the amount, or the fund is not
/// registered with the protocol).
pub open spec fn supply_spec(f: IndexFund, fund_admin: u64, token: u64, amount: int, degen: int) -> Result<
    (Map<u64, int>, int),
    IndexFundError,
> {
    let v = f.fund_vaults@;
    match lending_check(f, fund_admin) {
        Err(e) => Err(e),
        Ok(_) => if !v.dom().contains(token) {
            Err(IndexFundError::NotInFund)
        } else if !(0 <= amount <= v[token]) {
            Err(IndexFundError::InsufficientLiquidity)
        } else if f.degenfi_badge is None {
            Err(IndexFundError::NotRegistered)
        } else if !in_range(f.degen_tokens@ + degen) {
            Err(IndexFundError::Valuation)
        } else {
            Ok((v.insert(token, v[token] - amount), f.degen_tokens@ + degen))
        },
    }
}

/// Tokens `got` of `token` put into the vaults `v`; `None` when the fund
/// has no vault for it or the balance overflows.
pub open spec fn put_spec(v: Map<u64, int>, token: u64, got: int) -> Option<Map<u64, int>> {
    if !v.dom().contains(token) || !in_range(v[token] + got) {
        None
    } else {
        Some(v.insert(token, v[token] + got))
    }
}

/// The exchange that buys fund tokens for `token`: the fund's exchange,
/// for XRD (`xrd`) only.
pub open spec fn buy_result(f: IndexFund, token: u64, xrd: u64) -> Result<u64, IndexFundError> {
    if token != xrd {
        Err(IndexFundError::WrongToken)
    } else {
        match f.radex_address {
            Some(a) => Ok(a),
            None => Err(IndexFundError::NoExchange),
        }
    }
}

/// The exchange that sells `token` for XRD: the fund's exchange, for the
/// fund token only.
pub open spec fn sell_result(f: IndexFund, token: u64) -> Result<u64, IndexFundError> {
    if token != f.fund_token {
        Err(IndexFundError::WrongToken)
    } else {
        match f.radex_address {
            Some(a) => Ok(a),
            None => Err(IndexFundError::NoExchange),
        }
    }
}

/// What issuing fund tokens for `buckets` at the prices `prices` does: `o`
/// is the fund before, `f` after, and `r` the answer. Every bucket must be
/// of a token the fund holds (`NotInFund`); the fund and the buckets must
/// be valued and the minted amount fit (`Valuation`). On success the fund
/// mints `issue_amount` and its vaults take the buckets; a refusal leaves
/// it unchanged.
pub open spec fn issue_outcome(
    o: IndexFund,
    f: IndexFund,
    buckets: Seq<(u64, Decimal)>,
    prices: Map<u64, int>,
    r: Result<Decimal, IndexFundError>,
) -> bool {
    let v = o.fund_vaults;
    let all_in = forall|i: int|
        0 <= i < buckets.len() ==> #[trigger] v@.dom().contains(buckets[i].0);
    let amt = issue_amount(buckets, v.entries@, v@, prices);
    let dep = deposit_fold(buckets, v@, buckets.len() as int);
    &&& !all_in ==> r == Err::<Decimal, IndexFundError>(IndexFundError::NotInFund)
    &&& r is Ok <==> all_in && amt is Some && dep is Some && in_range(
        o.fund_token_supply@ + amt.unwrap(),
    )
    &&& all_in && r is Err ==> r == Err::<Decimal, IndexFundError>(
        IndexFundError::Valuation,
    )
    &&& r is Err ==> f == o
    &&& r matches Ok(m) ==> {
        &&& m@ == amt.unwrap()
        &&& f.fund_vaults@ == dep.unwrap()
        &&& f.fund_token_supply@ == o.fund_token_supply@ + m@
        &&& f == (IndexFund {
            fund_vaults: f.fund_vaults,
            fund_token_supply: f.fund_token_supply,
            ..o
        })
    }
}

/// What redeeming `amount` fund tokens of `token` at the prices `prices`
/// does: `o` is the fund before, `f` after, and `r` the answer. Only the
/// fund token is taken (`WrongToken`); its value and each vault's share of
/// it must be computable (`Valuation`). On success each vault pays its
/// share and the supply falls by `amount`; a refusal leaves the fund
/// unchanged.
pub open spec fn redeem_outcome(
    o: IndexFund,
    f: IndexFund,
    token: u64,
    amount: Decimal,
    prices: Map<u64, int>,
    r: Result<Vec<Decimal>, IndexFundError>,
) -> bool {
    let es = o.fund_vaults.entries@;
    let known = prices.dom().contains(o.fund_token);
    let tv = mul_attos(prices[o.fund_token], amount@);
    let rf = redeem_fold(es, prices, tv, es.len() as int);
    &&& token != o.fund_token ==> r == Err::<Vec<Decimal>, IndexFundError>(
        IndexFundError::WrongToken,
    )
    &&& r is Ok <==> token == o.fund_token && known && in_range(tv) && rf is Some
        && in_range(o.fund_token_supply@ - amount@)
    &&& token == o.fund_token && r is Err ==> r == Err::<
        Vec<Decimal>,
        IndexFundError,
    >(IndexFundError::Valuation)
    &&& r is Err ==> f == o
    &&& r matches Ok(v) ==> {
        &&& v@.len() == es.len()
        &&& forall|i: int| 0 <= i < es.len() ==> #[trigger] v@[i]@ == rf.unwrap().1[i]
        &&& f.fund_vaults.entries@ == rf.unwrap().0
        &&& f.fund_token_supply@ == o.fund_token_supply@ - amount@
        &&& f == (IndexFund {
            fund_vaults: f.fund_vaults,
            fund_token_supply: f.fund_token_supply,
            ..o
        })
    }
}

impl IndexFund {
    /// Vault entries have distinct tokens.
    pub open spec fn wf(&self) -> bool {
        self.fund_vaults.wf() && self.borrow_vaults.wf()
    }

    /// Creates a fund over the tokens of `tokens` (token, weight), with the
    /// fee percent `fee_to_pool` and the fund token's starting price, which
    /// is recorded at the oracle. Refused for a fee outside 0..=100, a
    /// starting price not above zero, or weights whose sum, rounded to a
    /// tenth, is not one.
    #[verifier::loop_isolation(false)]
    pub fn new(
        fund_name: String,
        fund_ticker: String,
        fee_to_pool: Decimal,
        starting_share_price: Decimal,
        tokens: &Vec<(u64, Decimal)>,
        fund_admin: u64,
        fund_trader: u64,
        fund_token: u64,
        oracle: &mut PriceOracle,
    ) -> (r: Result<IndexFund, IndexFundError>)
        requires
            old(oracle).wf(),
            keys_distinct(tokens@),
        ensures
            final(oracle).wf(),
            ({
                let w = weight_fold(tokens@, tokens@.len() as int);
                let weights_ok = w is Some && in_range(round_tenths(w.unwrap())) && round_tenths(
                    w.unwrap(),
                ) == one_attos();
                &&& !(0 <= fee_to_pool@ <= 100 * one_attos()) ==> r == Err::<
                    IndexFund,
                    IndexFundError,
                >(IndexFundError::InvalidFee)
                &&& 0 <= fee_to_pool@ <= 100 * one_attos() && starting_share_price@ <= 0 ==> r
                    == Err::<IndexFund, IndexFundError>(IndexFundError::InvalidSharePrice)
                &&& 0 <= fee_to_pool@ <= 100 * one_attos() && starting_share_price@ > 0
                    && !weights_ok ==> r == Err::<IndexFund, IndexFundError>(
                    IndexFundError::InvalidWeights,
                )
                &&& r is Ok <==> 0 <= fee_to_pool@ <= 100 * one_attos() && starting_share_price@
                    > 0 && weights_ok
                &&& r is Err ==> *final(oracle) == *old(oracle)
                &&& r matches Ok(f) ==> {
                    &&& f.wf()
                    &&& final(oracle).prices@ == old(oracle).prices@.insert(
                        fund_token,
                        starting_share_price@,
                    )
                    &&& f.fund_name@ == fund_name@ && f.fund_ticker@ == fund_ticker@
                    &&& f.fund_admin == fund_admin && f.fund_trader == fund_trader
                    &&& f.fund_token == fund_token && f.fund_token_supply@ == 0
                    &&& f.starting_share_price == starting_share_price
                    &&& f.fee_to_pool == fee_to_pool && f.fee_vault@ == 0
                    &&& f.radex_address is None && f.degenfi_address is None
                    &&& f.degenfi_badge is None && f.degen_token is None && f.degen_tokens@ == 0
                    &&& f.borrow_vaults@ == Map::<u64, int>::empty() && f.borrow_vaults.wf()
                    &&& f.loan is None
                    &&& f.fund_vaults.entries@.len() == tokens@.len()
                    &&& forall|i: int|
                        0 <= i < tokens@.len() ==> #[trigger] f.fund_vaults.entries@[i].0
                            == tokens@[i].0 && f.fund_vaults.entries@[i].1@ == 0
                }
            }),
    {
        if fee_to_pool.lt(Decimal::zero()) || fee_to_pool.gt(Decimal::from_u64(100)) {
            return Err(IndexFundError::InvalidFee);
        }
        if starting_share_price.le(Decimal::zero()) {
            return Err(IndexFundError::InvalidSharePrice);
        }
        let mut sum = Decimal::zero();
        let mut entries: Vec<(u64, Decimal)> = Vec::new();
        let mut i: usize = 0;
        while i < tokens.len()
            invariant
                0 <= i <= tokens@.len(),
                weight_fold(tokens@, i as int) == Some(sum@),
                entries@.len() == i,
                forall|j: int|
                    0 <= j < i ==> #[trigger] entries@[j].0 == tokens@[j].0 && entries@[j].1@
                        == 0,
            decreases tokens@.len() - i,
        {
            match sum.checked_add(tokens[i].1) {
                Some(x) => {
                    sum = x;
                },
                None => {
                    proof {
                        lemma_weight_fold_none(tokens@, i + 1, tokens@.len() as int);
                    }
                    return Err(IndexFundError::InvalidWeights);
                },
            }
            entries.push((tokens[i].0, Decimal::zero()));
            i = i + 1;
        }
        let low = Decimal::from_attos(-170141183460469231731687303715884105728i128);
        let high = Decimal::from_attos(170141183460469231731687303715884105727i128);
        if sum.lt(low.add(Decimal::from_attos(50_000_000_000_000_000i128))) || sum.gt(
            high.sub(Decimal::from_attos(50_000_000_000_000_000i128)),
        ) {
            return Err(IndexFundError::InvalidWeights);
        }
        let rounded = sum.round_nearest_tenths();
        if !rounded.eq(Decimal::one()) {
            return Err(IndexFundError::InvalidWeights);
        }
        proof {
            assert forall|a: int, b: int|
                0 <= a < entries@.len() && 0 <= b < entries@.len() && a != b implies entries@[a].0
                != entries@[b].0 by {
                assert(entries@[a].0 == tokens@[a].0);
                assert(entries@[b].0 == tokens@[b].0);
            }
        }
        oracle.set_price(fund_token, starting_share_price);
        Ok(IndexFund {
            fund_admin,
            fund_trader,
            fund_name,
            fund_ticker,
            fund_vaults: Ledger { entries },
            fund_token,
            fund_token_supply: Decimal::zero(),
            starting_share_price,
            radex_address: None,
            degenfi_address: None,
            fee_to_pool,
            fee_vault: Decimal::zero(),
            degenfi_badge: None,
            degen_token: None,
            degen_tokens: Decimal::zero(),
            borrow_vaults: Ledger::new(),
            loan: None,
        })
    }
    /// Integrates the exchange at `address`; only the fund admin may.
    pub fn integrate_dex(&mut self, fund_admin: u64, address: u64) -> (r: Result<(), IndexFundError>)
        ensures
            r is Ok <==> fund_admin == old(self).fund_admin,
            r is Err ==> r == Err::<(), IndexFundError>(IndexFundError::Unauthorized)
                && *final(self) == *old(self),
            r is Ok ==> *final(self) == (IndexFund { radex_address: Some(address), ..*old(self) }),
    {
        if fund_admin != self.fund_admin {
            return Err(IndexFundError::Unauthorized);
        }
        self.radex_address = Some(address);
        Ok(())
    }

    /// Integrates the lending protocol at `address`; only the fund admin
    /// may.
    pub fn integrate_lending(&mut self, fund_admin: u64, address: u64) -> (r: Result<
        (),
        IndexFundError,
    >)
        ensures
            r is Ok <==> fund_admin == old(self).fund_admin,
            r is Err ==> r == Err::<(), IndexFundError>(IndexFundError::Unauthorized)
                && *final(self) == *old(self),
            r is Ok ==> *final(self) == (IndexFund { degenfi_address: Some(address), ..*old(self) }),
    {
        if fund_admin != self.fund_admin {
            return Err(IndexFundError::Unauthorized);
        }
        self.degenfi_address = Some(address);
        Ok(())
    }

    /// Issues a trader badge (of the resource returned); only the fund
    /// admin may.
    pub fn create_trader_badge(&self, fund_admin: u64) -> (r: Result<u64, IndexFundError>)
        ensures
            r is Ok <==> fund_admin == self.fund_admin,
            r is Err ==> r == Err::<u64, IndexFundError>(IndexFundError::Unauthorized),
            r matches Ok(t) ==> t == self.fund_trader,
    {
        if fund_admin != self.fund_admin {
            return Err(IndexFundError::Unauthorized);
        }
        Ok(self.fund_trader)
    }

    /// Opens an empty vault for each token of `tokens` that has none.
    pub fn add_token(&mut self, tokens: &Vec<u64>)
        requires
            old(self).wf(),
        ensures
            final(self).wf(),
            forall|t: u64| #[trigger]
                final(self).fund_vaults@.dom().contains(t) <==> old(self).fund_vaults@.dom().contains(t)
                    || in_prefix(tokens@, tokens@.len() as int, t),
            forall|t: u64|
                #[trigger] old(self).fund_vaults@.dom().contains(t) ==> final(self).fund_vaults@[t]
                    == old(self).fund_vaults@[t],
            forall|t: u64|
                !old(self).fund_vaults@.dom().contains(t) && #[trigger] in_prefix(
                    tokens@,
                    tokens@.len() as int,
                    t,
                ) ==> final(self).fund_vaults@[t] == 0,
            *final(self) == (IndexFund { fund_vaults: final(self).fund_vaults, ..*old(self) }),
    {
        let mut i: usize = 0;
        while i < tokens.len()
            invariant
                0 <= i <= tokens@.len(),
                self.wf(),
                forall|t: u64| #[trigger]
                    self.fund_vaults@.dom().contains(t) <==> old(self).fund_vaults@.dom().contains(t)
                        || in_prefix(tokens@, i as int, t),
                forall|t: u64|
                    #[trigger] old(self).fund_vaults@.dom().contains(t) ==> self.fund_vaults@[t]
                        == old(self).fund_vaults@[t],
                forall|t: u64|
                    !old(self).fund_vaults@.dom().contains(t) && #[trigger] in_prefix(
                        tokens@,
                        i as int,
                        t,
                    ) ==> self.fund_vaults@[t] == 0,
                *self == (IndexFund { fund_vaults: self.fund_vaults, ..*old(self) }),
            decreases tokens@.len() - i,
        {
            let t = tokens[i];
            if !self.fund_vaults.contains(t) {
                self.fund_vaults.set(t, Decimal::zero());
            }
            proof {
                assert forall|u: u64| #[trigger] in_prefix(tokens@, i + 1, u) <==> in_prefix(
                    tokens@,
                    i as int,
                    u,
                ) || u == t by {
                    if u == t {
                        assert(tokens@[i as int] == u);
                    }
                }
            }
            i = i + 1;
        }
    }

    /// The exchange that buys fund tokens for XRD; refused for tokens
    /// other than XRD (`token` against `xrd`) or without an exchange.
    pub fn buy(&self, token: u64, xrd: u64) -> (r: Result<u64, IndexFundError>)
        ensures
            r == buy_result(*self, token, xrd),
            token != xrd ==> r == Err::<u64, IndexFundError>(IndexFundError::WrongToken),
            token == xrd && self.radex_address is None ==> r == Err::<u64, IndexFundError>(
                IndexFundError::NoExchange,
            ),
            r is Ok <==> token == xrd && self.radex_address is Some,
            r matches Ok(a) ==> self.radex_address == Some(a),
    {
        if token != xrd {
            return Err(IndexFundError::WrongToken);
        }
        match self.radex_address {
            Some(a) => Ok(a),
            None => Err(IndexFundError::NoExchange),
        }
    }

    /// The exchange that sells fund tokens for XRD; refused for tokens
    /// other than the fund token or without an exchange.
    pub fn sell(&self, token: u64) -> (r: Result<u64, IndexFundError>)
        ensures
            r == sell_result(*self, token),
            token != self.fund_token ==> r == Err::<u64, IndexFundError>(IndexFundError::WrongToken),
            token == self.fund_token && self.radex_address is None ==> r == Err::<
                u64,
                IndexFundError,
            >(IndexFundError::NoExchange),
            r is Ok <==> token == self.fund_token && self.radex_address is Some,
            r matches Ok(a) ==> self.radex_address == Some(a),
    {
        if token != self.fund_token {
            return Err(IndexFundError::WrongToken);
        }
        match self.radex_address {
            Some(a) => Ok(a),
            None => Err(IndexFundError::NoExchange),
        }
    }

    /// Takes `amount` out of the vault of `token`.
    fn withdraw(&mut self, token: u64, amount: Decimal) -> (r: Result<(), IndexFundError>)
        requires
            old(self).wf(),
        ensures
            final(self).wf(),
            !old(self).fund_vaults@.dom().contains(token) ==> r == Err::<(), IndexFundError>(
                IndexFundError::NotInFund,
            ),
            old(self).fund_vaults@.dom().contains(token) && !(0 <= amount@
                <= old(self).fund_vaults@[token]) ==> r == Err::<(), IndexFundError>(
                IndexFundError::InsufficientLiquidity,
            ),
            r is Ok <==> old(self).fund_vaults@.dom().contains(token) && 0 <= amount@
                <= old(self).fund_vaults@[token],
            r is Err ==> *final(self) == *old(self),
            r is Ok ==> final(self).fund_vaults@ == old(self).fund_vaults@.insert(
                token,
                old(self).fund_vaults@[token] - amount@,
            ) && *final(self) == (IndexFund { fund_vaults: final(self).fund_vaults, ..*old(self) }),
    {
        let bal = match self.fund_vaults.get(token) {
            Some(b) => b,
            None => {
                return Err(IndexFundError::NotInFund);
            },
        };
        if amount.lt(Decimal::zero()) || amount.gt(bal) {
            return Err(IndexFundError::InsufficientLiquidity);
        }
        self.fund_vaults.set(token, bal.sub(amount));
        Ok(())
    }

    /// Swaps `amount` of the fund's `token` for `output_token` on the
    /// exchange, which returned `received`; only the fund admin may.
    pub fn swap(
        &mut self,
        fund_admin: u64,
        token: u64,
        amount: Decimal,
        output_token: u64,
        received: Decimal,
    ) -> (r: Result<(), IndexFundError>)
        requires
            old(self).wf(),
        ensures
            final(self).wf(),
            ({
                let v = old(self).fund_vaults@;
                let after = v.insert(token, v[token] - amount@);
                &&& fund_admin != old(self).fund_admin ==> r == Err::<(), IndexFundError>(
                    IndexFundError::Unauthorized,
                )
                &&& fund_admin == old(self).fund_admin && old(self).radex_address is None ==> r
                    == Err::<(), IndexFundError>(IndexFundError::NoExchange)
                &&& fund_admin == old(self).fund_admin && old(self).radex_address is Some && !(
                v.dom().contains(token) && v.dom().contains(output_token)) ==> r == Err::<
                    (),
                    IndexFundError,
                >(IndexFundError::NotInFund)
                &&& r is Ok <==> fund_admin == old(self).fund_admin && old(self).radex_address is Some
                    && v.dom().contains(token) && v.dom().contains(output_token) && 0 <= amount@
                    <= v[token] && in_range(after[output_token] + received@)
                &&& r is Err ==> *final(self) == *old(self)
                &&& r is Ok ==> final(self).fund_vaults@ == after.insert(
                    output_token,
                    after[output_token] + received@,
                ) && *final(self) == (IndexFund {
                    fund_vaults: final(self).fund_vaults,
                    ..*old(self)
                })
            }),
    {
        if fund_admin != self.fund_admin {
            return Err(IndexFundError::Unauthorized);
        }
        if self.radex_address.is_none() {
            return Err(IndexFundError::NoExchange);
        }
        if !self.fund_vaults.contains(token) || !self.fund_vaults.contains(output_token) {
            return Err(IndexFundError::NotInFund);
        }
        let bal = self.fund_vaults.get(token).unwrap();
        if amount.lt(Decimal::zero()) || amount.gt(bal) {
            return Err(IndexFundError::InsufficientLiquidity);
        }
        let out_bal = if output_token == token {
            bal.sub(amount)
        } else {
            self.fund_vaults.get(output_token).unwrap()
        };
        let nb = match out_bal.checked_add(received) {
            Some(x) => x,
            None => {
                return Err(IndexFundError::Valuation);
            },
        };
        self.fund_vaults.set(token, bal.sub(amount));
        self.fund_vaults.set(output_token, nb);
        Ok(())
    }

    /// Moves `token1_amount` of `token1` and `token2_amount` of `token2`
    /// into the exchange's pool, which returned `tracking_amount` tracking
    /// tokens of resource `tracking_token`, kept in their own vault; only
    /// the fund admin may, once lending is integrated as the fund
    /// checks.
    pub fn add_liquidity(
        &mut self,
        fund_admin: u64,
        token1: u64,
        token1_amount: Decimal,
        token2: u64,
        token2_amount: Decimal,
        tracking_token: u64,
        tracking_amount: Decimal,
    ) -> (r: Result<(), IndexFundError>)
        requires
            old(self).wf(),
        ensures
            final(self).wf(),
            ({
                let v = old(self).fund_vaults@;
                let v1 = v.insert(token1, v[token1] - token1_amount@);
                let v2 = v1.insert(token2, v1[token2] - token2_amount@);
                let held = if v2.dom().contains(tracking_token) {
                    v2[tracking_token]
                } else {
                    0
                };
                &&& fund_admin != old(self).fund_admin ==> r == Err::<(), IndexFundError>(
                    IndexFundError::Unauthorized,
                )
                &&& fund_admin == old(self).fund_admin && old(self).degenfi_address is None ==> r
                    == Err::<(), IndexFundError>(IndexFundError::NoLending)
                &&& fund_admin == old(self).fund_admin && old(self).degenfi_address is Some && !(
                v.dom().contains(token1) && v.dom().contains(token2)) ==> r == Err::<
                    (),
                    IndexFundError,
                >(IndexFundError::NotInFund)
                &&& r is Ok <==> fund_admin == old(self).fund_admin && old(self).degenfi_address is Some
                    && v.dom().contains(token1) && v.dom().contains(token2) && 0 <= token1_amount@
                    <= v[token1] && 0 <= token2_amount@ <= v1[token2] && old(self).radex_address is Some
                    && in_range(held + tracking_amount@)
                &&& r is Err ==> *final(self) == *old(self)
                &&& r is Ok ==> final(self).fund_vaults@ == v2.insert(
                    tracking_token,
                    held + tracking_amount@,
                ) && *final(self) == (IndexFund {
                    fund_vaults: final(self).fund_vaults,
                    ..*old(self)
                })
            }),
    {
        if fund_admin != self.fund_admin {
            return Err(IndexFundError::Unauthorized);
        }
        if self.degenfi_address.is_none() {
            return Err(IndexFundError::NoLending);
        }
        if !self.fund_vaults.contains(token1) || !self.fund_vaults.contains(token2) {
            return Err(IndexFundError::NotInFund);
        }
        let b1 = self.fund_vaults.get(token1).unwrap();
        if token1_amount.lt(Decimal::zero()) || token1_amount.gt(b1) {
            return Err(IndexFundError::InsufficientLiquidity);
        }
        let b2 = if token2 == token1 {
            b1.sub(token1_amount)
        } else {
            self.fund_vaults.get(token2).unwrap()
        };
        if token2_amount.lt(Decimal::zero()) || token2_amount.gt(b2) {
            return Err(IndexFundError::InsufficientLiquidity);
        }
        if self.radex_address.is_none() {
            return Err(IndexFundError::NoExchange);
        }
        let held = if tracking_token == token2 {
            b2.sub(token2_amount)
        } else if tracking_token == token1 {
            b1.sub(token1_amount)
        } else {
            match self.fund_vaults.get(tracking_token) {
                Some(h) => h,
                None => Decimal::zero(),
            }
        };
        let nt = match held.checked_add(tracking_amount) {
            Some(x) => x,
            None => {
                return Err(IndexFundError::Valuation);
            },
        };
        self.fund_vaults.set(token1, b1.sub(token1_amount));
        self.fund_vaults.set(token2, b2.sub(token2_amount));
        self.fund_vaults.set(tracking_token, nt);
        Ok(())
    }

    /// Moves `tracking_amount` tracking tokens of `tracking_token` out to
    /// the exchange, which returned `received1` of `token1` and
    /// `received2` of `token2` into their vaults; only the fund admin may,
    /// once lending is integrated as the fund checks.
    pub fn remove_liquidity(
        &mut self,
        fund_admin: u64,
        tracking_token: u64,
        tracking_amount: Decimal,
        token1: u64,
        received1: Decimal,
        token2: u64,
        received2: Decimal,
    ) -> (r: Result<(), IndexFundError>)
        requires
            old(self).wf(),
        ensures
            final(self).wf(),
            ({
                let v = old(self).fund_vaults@;
                let v0 = v.insert(tracking_token, v[tracking_token] - tracking_amount@);
                let v1 = v0.insert(token1, v0[token1] + received1@);
                let v2 = v1.insert(token2, v1[token2] + received2@);
                &&& fund_admin != old(self).fund_admin ==> r == Err::<(), IndexFundError>(
                    IndexFundError::Unauthorized,
                )
                &&& fund_admin == old(self).fund_admin && old(self).degenfi_address is None ==> r
                    == Err::<(), IndexFundError>(IndexFundError::NoLending)
                &&& fund_admin == old(self).fund_admin && old(self).degenfi_address is Some
                    && !v.dom().contains(tracking_token) ==> r == Err::<(), IndexFundError>(
                    IndexFundError::NotInFund,
                )
                &&& r is Ok <==> fund_admin == old(self).fund_admin && old(self).degenfi_address is Some
                    && v.dom().contains(tracking_token) && 0 <= tracking_amount@ <= v[tracking_token]
                    && old(self).radex_address is Some && v.dom().contains(token1) && v.dom().contains(
                    token2,
                ) && in_range(v0[token1] + received1@) && in_range(v1[token2] + received2@)
                &&& r is Err ==> *final(self) == *old(self)
                &&& r is Ok ==> final(self).fund_vaults@ == v2 && *final(self) == (IndexFund {
                    fund_vaults: final(self).fund_vaults,
                    ..*old(self)
                })
            }),
    {
        if fund_admin != self.fund_admin {
            return Err(IndexFundError::Unauthorized);
        }
        if self.degenfi_address.is_none() {
            return Err(IndexFundError::NoLending);
        }
        let bt = match self.fund_vaults.get(tracking_token) {
            Some(b) => b,
            None => {
                return Err(IndexFundError::NotInFund);
            },
        };
        if tracking_amount.lt(Decimal::zero()) || tracking_amount.gt(bt) {
            return Err(IndexFundError::InsufficientLiquidity);
        }
        if self.radex_address.is_none() {
            return Err(IndexFundError::NoExchange);
        }
        if !self.fund_vaults.contains(token1) || !self.fund_vaults.contains(token2) {
            return Err(IndexFundError::NotInFund);
        }
        let b1 = if token1 == tracking_token {
            bt.sub(tracking_amount)
        } else {
            self.fund_vaults.get(token1).unwrap()
        };
        let n1 = match b1.checked_add(received1) {
            Some(x) => x,
            None => {
                return Err(IndexFundError::Valuation);
            },
        };
        let b2 = if token2 == token1 {
            n1
        } else if token2 == tracking_token {
            bt.sub(tracking_amount)
        } else {
            self.fund_vaults.get(token2).unwrap()
        };
        let n2 = match b2.checked_add(received2) {
            Some(x) => x,
            None => {
                return Err(IndexFundError::Valuation);
            },
        };
        self.fund_vaults.set(tracking_token, bt.sub(tracking_amount));
        self.fund_vaults.set(token1, n1);
        self.fund_vaults.set(token2, n2);
        Ok(())
    }

    /// Takes `amount` fund tokens out of the fund's own fund token vault;
    /// only the fund admin may.
    pub fn claim_fees(&mut self, fund_admin: u64, amount: Decimal) -> (r: Result<
        Decimal,
        IndexFundError,
    >)
        requires
            old(self).wf(),
        ensures
            final(self).wf(),
            ({
                let v = old(self).fund_vaults@;
                let t = old(self).fund_token;
                &&& fund_admin != old(self).fund_admin ==> r == Err::<Decimal, IndexFundError>(
                    IndexFundError::Unauthorized,
                )
                &&& fund_admin == old(self).fund_admin && !v.dom().contains(t) ==> r == Err::<
                    Decimal,
                    IndexFundError,
                >(IndexFundError::NotInFund)
                &&& r is Ok <==> fund_admin == old(self).fund_admin && v.dom().contains(t) && 0
                    <= amount@ <= v[t]
                &&& r is Err ==> *final(self) == *old(self)
                &&& r matches Ok(x) ==> x == amount && final(self).fund_vaults@ == v.insert(
                    t,
                    v[t] - amount@,
                ) && *final(self) == (IndexFund {
                    fund_vaults: final(self).fund_vaults,
                    ..*old(self)
                })
            }),
    {
        if fund_admin != self.fund_admin {
            return Err(IndexFundError::Unauthorized);
        }
        let t = self.fund_token;
        match self.withdraw(t, amount) {
            Ok(()) => Ok(amount),
            Err(e) => Err(e),
        }
    }
    /// Issues fund tokens for the buckets `buckets` (token, amount), which
    /// are deposited into their vaults; the amount issued is
    /// `issue_amount` at the oracle's prices. Refused when a bucket's token
    /// has no vault.
    #[verifier::loop_isolation(false)]
    pub fn issue_tokens(&mut self, buckets: &Vec<(u64, Decimal)>, oracle: &PriceOracle) -> (r: Result<
        Decimal,
        IndexFundError,
    >)
        requires
            old(self).wf(),
            oracle.wf(),
        ensures
            final(self).wf(),
            issue_outcome(*old(self), *final(self), buckets@, oracle.prices@, r),
    {
        if !all_in_fund(buckets, &self.fund_vaults) {
            return Err(IndexFundError::NotInFund);
        }
        let fund_value = match value_of(&self.fund_vaults.entries, oracle, Decimal::zero()) {
            Some(v) => v,
            None => {
                return Err(IndexFundError::Valuation);
            },
        };
        let total = match value_of(buckets, oracle, Decimal::zero()) {
            Some(v) => v,
            None => {
                return Err(IndexFundError::Valuation);
            },
        };
        let amount = if fund_value.is_zero() {
            match mint1_of(buckets, oracle, total) {
                Some(m) => m,
                None => {
                    return Err(IndexFundError::Valuation);
                },
            }
        } else {
            let cumulative = match value_of(buckets, oracle, fund_value) {
                Some(v) => v,
                None => {
                    return Err(IndexFundError::Valuation);
                },
            };
            match mint2_of(buckets, &self.fund_vaults, oracle, cumulative, total) {
                Some(m) => m,
                None => {
                    return Err(IndexFundError::Valuation);
                },
            }
        };
        let supply = match self.fund_token_supply.checked_add(amount) {
            Some(x) => x,
            None => {
                return Err(IndexFundError::Valuation);
            },
        };
        let mut vaults = Ledger { entries: copy_entries(&self.fund_vaults.entries) };
        let mut i: usize = 0;
        while i < buckets.len()
            invariant
                vaults.wf(),
                0 <= i <= buckets@.len(),
                deposit_fold(buckets@, self.fund_vaults@, i as int) == Some(vaults@),
            decreases buckets@.len() - i,
        {
            let (token, amt) = buckets[i];
            let step = match vaults.get(token) {
                Some(b) => b.checked_add(amt),
                None => None,
            };
            match step {
                Some(nb) => {
                    vaults.set(token, nb);
                },
                None => {
                    proof {
                        lemma_deposit_fold_none(buckets@, self.fund_vaults@, i + 1, buckets@.len() as int);
                    }
                    return Err(IndexFundError::Valuation);
                },
            }
            i = i + 1;
        }
        self.fund_vaults = vaults;
        self.fund_token_supply = supply;
        Ok(amount)
    }

    /// Redeems `amount` fund tokens (of resource `token`) for a share of
    /// every vault: the tokens are worth `amount` at the fund token's
    /// price, and each vault pays that worth times its share of the fund's
    /// value (see `redeem_fold`). Returns the amounts paid, vault by vault.
    #[verifier::loop_isolation(false)]
    pub fn redeem(&mut self, token: u64, amount: Decimal, oracle: &PriceOracle) -> (r: Result<
        Vec<Decimal>,
        IndexFundError,
    >)
        requires
            old(self).wf(),
            oracle.wf(),
        ensures
            final(self).wf(),
            redeem_outcome(*old(self), *final(self), token, amount, oracle.prices@, r),
    {
        if token != self.fund_token {
            return Err(IndexFundError::WrongToken);
        }
        let price = match oracle.get_price(self.fund_token) {
            Some(p) => p,
            None => {
                return Err(IndexFundError::Valuation);
            },
        };
        let tv = match price.checked_mul(amount) {
            Some(x) => x,
            None => {
                return Err(IndexFundError::Valuation);
            },
        };
        let ghost es = self.fund_vaults.entries@;
        let n = self.fund_vaults.entries.len();
        let mut cur = copy_entries(&self.fund_vaults.entries);
        let mut rets: Vec<Decimal> = Vec::new();
        let mut i: usize = 0;
        while i < n
            invariant
                n == es.len(),
                0 <= i <= n,
                redeem_fold(es, oracle.prices@, tv@, i as int) is Some,
                cur@ == redeem_fold(es, oracle.prices@, tv@, i as int).unwrap().0,
                rets@.len() == i,
                forall|j: int|
                    0 <= j < i ==> #[trigger] rets@[j]@ == redeem_fold(
                        es,
                        oracle.prices@,
                        tv@,
                        i as int,
                    ).unwrap().1[j],
            decreases n - i,
        {
            proof {
                lemma_redeem_fold(es, oracle.prices@, tv@, i as int);
            }
            let ghost acc = redeem_fold(es, oracle.prices@, tv@, i as int).unwrap();
            let c = match value_of(&cur, oracle, Decimal::zero()) {
                Some(c) => c,
                None => {
                    proof {
                        lemma_redeem_fold_none(es, oracle.prices@, tv@, i + 1, n as int);
                    }
                    return Err(IndexFundError::Valuation);
                },
            };
            let (t, held) = cur[i];
            let step = match oracle.get_price(t) {
                Some(p) => match p.checked_mul(held) {
                    Some(cv) => match cv.checked_div(c) {
                        Some(w) => match tv.checked_mul(w) {
                            Some(ret) => if ret.lt(Decimal::zero()) || ret.gt(held) {
                                None
                            } else {
                                Some(ret)
                            },
                            None => None,
                        },
                        None => None,
                    },
                    None => None,
                },
                None => None,
            };
            match step {
                Some(ret) => {
                    cur.set(i, (t, held.sub(ret)));
                    rets.push(ret);
                    proof {
                        let acc2 = redeem_fold(es, oracle.prices@, tv@, i + 1).unwrap();
                        assert(acc2.1 == acc.1.push(ret@));
                        assert forall|j: int| 0 <= j < i + 1 implies #[trigger] rets@[j]@ == acc2.1[j] by {
                            if j < i {
                                assert(rets@[j]@ == acc.1[j]);
                            }
                        }
                    }
                },
                None => {
                    proof {
                        lemma_redeem_fold_none(es, oracle.prices@, tv@, i + 1, n as int);
                    }
                    return Err(IndexFundError::Valuation);
                },
            }
            i = i + 1;
        }
        let supply = match self.fund_token_supply.checked_sub(amount) {
            Some(x) => x,
            None => {
                return Err(IndexFundError::Valuation);
            },
        };
        proof {
            lemma_redeem_fold(es, oracle.prices@, tv@, n as int);
            assert forall|a: int, b: int|
                0 <= a < cur@.len() && 0 <= b < cur@.len() && a != b implies cur@[a].0 != cur@[b].0 by {
                assert(cur@[a].0 == es[a].0);
                assert(cur@[b].0 == es[b].0);
            }
        }
        self.fund_vaults = Ledger { entries: cur };
        self.fund_token_supply = supply;
        Ok(rets)
    }

    /// The weight of each vault in the fund's value at the oracle's
    /// prices, vault by vault.
    #[verifier::loop_isolation(false)]
    pub fn token_weights(&self, oracle: &PriceOracle) -> (r: Result<Vec<Decimal>, IndexFundError>)
        requires
            self.wf(),
            oracle.wf(),
        ensures
            ({
                let es = self.fund_vaults.entries@;
                let c = value_fold(es, oracle.prices@, 0, es.len() as int);
                &&& r is Ok <==> c is Some && forall|i: int|
                    0 <= i < es.len() ==> #[trigger] weight_of(es[i], oracle.prices@, c.unwrap()) is Some
                &&& r is Err ==> r == Err::<Vec<Decimal>, IndexFundError>(IndexFundError::Valuation)
                &&& r matches Ok(v) ==> v@.len() == es.len() && forall|i: int|
                    0 <= i < es.len() ==> Some(#[trigger] v@[i]@) == weight_of(
                        es[i],
                        oracle.prices@,
                        c.unwrap(),
                    )
            }),
    {
        let c = match value_of(&self.fund_vaults.entries, oracle, Decimal::zero()) {
            Some(c) => c,
            None => {
                return Err(IndexFundError::Valuation);
            },
        };
        let ghost es = self.fund_vaults.entries@;
        let mut out: Vec<Decimal> = Vec::new();
        let mut i: usize = 0;
        while i < self.fund_vaults.entries.len()
            invariant
                oracle.wf(),
                es == self.fund_vaults.entries@,
                0 <= i <= es.len(),
                out@.len() == i,
                forall|j: int| 0 <= j < i ==> Some(#[trigger] out@[j]@) == weight_of(es[j], oracle.prices@, c@),
            decreases es.len() - i,
        {
            let (t, held) = self.fund_vaults.entries[i];
            let w = match oracle.get_price(t) {
                Some(p) => match held.checked_mul(p) {
                    Some(v) => v.checked_div(c),
                    None => None,
                },
                None => None,
            };
            match w {
                Some(w) => {
                    out.push(w);
                },
                None => {
                    assert(weight_of(es[i as int], oracle.prices@, c@) is None);
                    return Err(IndexFundError::Valuation);
                },
            }
            i = i + 1;
        }
        assert forall|j: int| 0 <= j < es.len() implies #[trigger] weight_of(es[j], oracle.prices@, c@) is Some by {
            assert(Some(out@[j]@) == weight_of(es[j], oracle.prices@, c@));
        }
        Ok(out)
    }

    /// Mints the fee: the fund's value times the fee percent, in fund
    /// tokens at their price, into the fee vault. Returns the tokens
    /// minted.
    pub fn calculate_fees(&mut self, oracle: &PriceOracle) -> (r: Result<Decimal, IndexFundError>)
        requires
            old(self).wf(),
            oracle.wf(),
        ensures
            final(self).wf(),
            ({
                let es = old(self).fund_vaults.entries@;
                let prices = oracle.prices@;
                let c = value_fold(es, prices, 0, es.len() as int);
                let fee = mul_attos(c.unwrap(), old(self).fee_to_pool@);
                let p = prices[old(self).fund_token];
                let amt = div_attos(fee, p);
                &&& r is Ok <==> c is Some && in_range(fee) && prices.dom().contains(
                    old(self).fund_token,
                ) && p != 0 && in_range(amt) && in_range(old(self).fund_token_supply@ + amt)
                    && in_range(old(self).fee_vault@ + amt)
                &&& r is Err ==> r == Err::<Decimal, IndexFundError>(IndexFundError::Valuation)
                    && *final(self) == *old(self)
                &&& r matches Ok(m) ==> {
                    &&& m@ == amt
                    &&& final(self).fund_token_supply@ == old(self).fund_token_supply@ + amt
                    &&& final(self).fee_vault@ == old(self).fee_vault@ + amt
                    &&& *final(self) == (IndexFund {
                        fund_token_supply: final(self).fund_token_supply,
                        fee_vault: final(self).fee_vault,
                        ..*old(self)
                    })
                }
            }),
    {
        let c = match value_of(&self.fund_vaults.entries, oracle, Decimal::zero()) {
            Some(c) => c,
            None => {
                return Err(IndexFundError::Valuation);
            },
        };
        let fee = match c.checked_mul(self.fee_to_pool) {
            Some(x) => x,
            None => {
                return Err(IndexFundError::Valuation);
            },
        };
        let p = match oracle.get_price(self.fund_token) {
            Some(p) => p,
            None => {
                return Err(IndexFundError::Valuation);
            },
        };
        let amt = match fee.checked_div(p) {
            Some(x) => x,
            None => {
                return Err(IndexFundError::Valuation);
            },
        };
        match (self.fund_token_supply.checked_add(amt), self.fee_vault.checked_add(amt)) {
            (Some(s), Some(f)) => {
                self.fund_token_supply = s;
                self.fee_vault = f;
                Ok(amt)
            },
            _ => Err(IndexFundError::Valuation),
        }
    }

    /// The checks of a call into the lending protocol (see `lending_check`).
    fn check_lending(&self, fund_admin: u64) -> (r: Result<(), IndexFundError>)
        ensures
            r == lending_check(*self, fund_admin),
    {
        if fund_admin != self.fund_admin {
            return Err(IndexFundError::Unauthorized);
        }
        if self.degenfi_address.is_none() {
            return Err(IndexFundError::NoLending);
        }
        Ok(())
    }

    /// Moves `amount` of `token` into the lending protocol, which returned
    /// `degen` of its tokens (see `supply_spec`).
    fn supply_to_lending(&mut self, fund_admin: u64, token: u64, amount: Decimal, degen: Decimal) -> (r:
        Result<(), IndexFundError>)
        requires
            old(self).wf(),
        ensures
            final(self).wf(),
            r is Ok <==> supply_spec(*old(self), fund_admin, token, amount@, degen@) is Ok,
            r matches Err(e) ==> supply_spec(*old(self), fund_admin, token, amount@, degen@) == Err::<
                (Map<u64, int>, int),
                IndexFundError,
            >(e) && *final(self) == *old(self),
            r is Ok ==> {
                let x = supply_spec(*old(self), fund_admin, token, amount@, degen@).unwrap();
                &&& final(self).fund_vaults@ == x.0
                &&& final(self).degen_tokens@ == x.1
                &&& *final(self) == (IndexFund {
                    fund_vaults: final(self).fund_vaults,
                    degen_tokens: final(self).degen_tokens,
                    ..*old(self)
                })
            },
    {
        match self.check_lending(fund_admin) {
            Err(e) => {
                return Err(e);
            },
            Ok(_) => {},
        }
        let bal = match self.fund_vaults.get(token) {
            Some(b) => b,
            None => {
                return Err(IndexFundError::NotInFund);
            },
        };
        if amount.lt(Decimal::zero()) || amount.gt(bal) {
            return Err(IndexFundError::InsufficientLiquidity);
        }
        if self.degenfi_badge.is_none() {
            return Err(IndexFundError::NotRegistered);
        }
        let held = match self.degen_tokens.checked_add(degen) {
            Some(x) => x,
            None => {
                return Err(IndexFundError::Valuation);
            },
        };
        self.fund_vaults.set(token, bal.sub(amount));
        self.degen_tokens = held;
        Ok(())
    }

    /// Registers the fund with the lending protocol, which returned its
    /// user badge `badge` and `degen_amount` of its tokens (of resource
    /// `degen_token`); these replace any held before. Only the fund admin
    /// may, once lending is integrated.
    pub fn register_degenfi_user(
        &mut self,
        fund_admin: u64,
        badge: u64,
        degen_token: u64,
        degen_amount: Decimal,
    ) -> (r: Result<(), IndexFundError>)
        ensures
            r is Ok <==> lending_check(*old(self), fund_admin) is Ok,
            r matches Err(e) ==> lending_check(*old(self), fund_admin) == Err::<(), IndexFundError>(e)
                && *final(self) == *old(self),
            r is Ok ==> *final(self) == (IndexFund {
                degenfi_badge: Some(badge),
                degen_token: Some(degen_token),
                degen_tokens: degen_amount,
                ..*old(self)
            }),
    {
        match self.check_lending(fund_admin) {
            Err(e) => {
                return Err(e);
            },
            Ok(_) => {},
        }
        self.degenfi_badge = Some(badge);
        self.degen_token = Some(degen_token);
        self.degen_tokens = degen_amount;
        Ok(())
    }

    /// Opens a lending pool with `amount` of the fund's `token`; the
    /// protocol returned `degen` of its tokens (see `supply_spec`).
    pub fn new_lending_pool(&mut self, fund_admin: u64, token: u64, amount: Decimal, degen: Decimal) -> (r:
        Result<(), IndexFundError>)
        requires
            old(self).wf(),
        ensures
            final(self).wf(),
            r is Ok <==> supply_spec(*old(self), fund_admin, token, amount@, degen@) is Ok,
            r matches Err(e) ==> supply_spec(*old(self), fund_admin, token, amount@, degen@) == Err::<
                (Map<u64, int>, int),
                IndexFundError,
            >(e) && *final(self) == *old(self),
            r is Ok ==> {
                let x = supply_spec(*old(self), fund_admin, token, amount@, degen@).unwrap();
                &&& final(self).fund_vaults@ == x.0
                &&& final(self).degen_tokens@ == x.1
                &&& *final(self) == (IndexFund {
                    fund_vaults: final(self).fund_vaults,
                    degen_tokens: final(self).degen_tokens,
                    ..*old(self)
                })
            },
    {
        self.supply_to_lending(fund_admin, token, amount, degen)
    }

    /// Adds `amount` of the fund's `token` to its lending pool; the
    /// protocol returned `degen` of its tokens (see `supply_spec`).
    pub fn deposit_supply(&mut self, fund_admin: u64, token: u64, amount: Decimal, degen: Decimal) -> (r:
        Result<(), IndexFundError>)
        requires
            old(self).wf(),
        ensures
            final(self).wf(),
            r is Ok <==> supply_spec(*old(self), fund_admin, token, amount@, degen@) is Ok,
            r matches Err(e) ==> supply_spec(*old(self), fund_admin, token, amount@, degen@) == Err::<
                (Map<u64, int>, int),
                IndexFundError,
            >(e) && *final(self) == *old(self),
            r is Ok ==> {
                let x = supply_spec(*old(self), fund_admin, token, amount@, degen@).unwrap();
                &&& final(self).fund_vaults@ == x.0
                &&& final(self).degen_tokens@ == x.1
                &&& *final(self) == (IndexFund {
                    fund_vaults: final(self).fund_vaults,
                    degen_tokens: final(self).degen_tokens,
                    ..*old(self)
                })
            },
    {
        self.supply_to_lending(fund_admin, token, amount, degen)
    }

    /// Locks `amount` of the fund's `token` as collateral; the protocol
    /// returned `degen` of its tokens (see `supply_spec`).
    pub fn deposit_collateral(&mut self, fund_admin: u64, token: u64, amount: Decimal, degen: Decimal) -> (r:
        Result<(), IndexFundError>)
        requires
            old(self).wf(),
        ensures
            final(self).wf(),
            r is Ok <==> supply_spec(*old(self), fund_admin, token, amount@, degen@) is Ok,
            r matches Err(e) ==> supply_spec(*old(self), fund_admin, token, amount@, degen@) == Err::<
                (Map<u64, int>, int),
                IndexFundError,
            >(e) && *final(self) == *old(self),
            r is Ok ==> {
                let x = supply_spec(*old(self), fund_admin, token, amount@, degen@).unwrap();
                &&& final(self).fund_vaults@ == x.0
                &&& final(self).degen_tokens@ == x.1
                &&& *final(self) == (IndexFund {
                    fund_vaults: final(self).fund_vaults,
                    degen_tokens: final(self).degen_tokens,
                    ..*old(self)
                })
            },
    {
        self.supply_to_lending(fund_admin, token, amount, degen)
    }

    /// Tops up the collateral of loan `loan_id` with `amount` of the fund's
    /// `token`; the protocol returned `degen` of its tokens (see
    /// `supply_spec`; the loan id goes to the protocol only).
    pub fn deposit_additional_collateral(
        &mut self,
        fund_admin: u64,
        loan_id: u64,
        token: u64,
        amount: Decimal,
        degen: Decimal,
    ) -> (r: Result<(), IndexFundError>)
        requires
            old(self).wf(),
        ensures
            final(self).wf(),
            r is Ok <==> supply_spec(*old(self), fund_admin, token, amount@, degen@) is Ok,
            r matches Err(e) ==> supply_spec(*old(self), fund_admin, token, amount@, degen@) == Err::<
                (Map<u64, int>, int),
                IndexFundError,
            >(e) && *final(self) == *old(self),
            r is Ok ==> {
                let x = supply_spec(*old(self), fund_admin, token, amount@, degen@).unwrap();
                &&& final(self).fund_vaults@ == x.0
                &&& final(self).degen_tokens@ == x.1
                &&& *final(self) == (IndexFund {
                    fund_vaults: final(self).fund_vaults,
                    degen_tokens: final(self).degen_tokens,
                    ..*old(self)
                })
            },
    {
        self.supply_to_lending(fund_admin, token, amount, degen)
    }

    /// Borrows against the fund's `collateral`; the protocol returned
    /// `borrowed` of `borrowed_token` (which replaces any such borrowed
    /// tokens held), the loan NFT `loan_nft` (kept only when the fund holds
    /// no loan yet) and `degen` of its tokens. Refused after
    /// `lending_check` when the collateral is not in the fund, the fund is
    /// not registered, or the protocol tokens overflow.
    pub fn borrow(
        &mut self,
        fund_admin: u64,
        collateral: u64,
        borrowed_token: u64,
        borrowed: Decimal,
        loan_nft: u64,
        degen: Decimal,
    ) -> (r: Result<(), IndexFundError>)
        requires
            old(self).wf(),
        ensures
            final(self).wf(),
            ({
                let c = lending_check(*old(self), fund_admin);
                &&& c matches Err(e) ==> r == Err::<(), IndexFundError>(e)
                &&& c is Ok && !old(self).fund_vaults@.dom().contains(collateral) ==> r == Err::<
                    (),
                    IndexFundError,
                >(IndexFundError::NotInFund)
                &&& c is Ok && old(self).fund_vaults@.dom().contains(collateral) && old(self).degenfi_badge is None ==> r == Err::<(), IndexFundError>(
                    IndexFundError::NotRegistered,
                )
                &&& r is Ok <==> c is Ok && old(self).fund_vaults@.dom().contains(collateral) && old(self).degenfi_badge is Some && in_range(old(self).degen_tokens@ + degen@)
                &&& r is Err ==> *final(self) == *old(self)
                &&& r is Ok ==> final(self).borrow_vaults@ == old(self).borrow_vaults@.insert(
                    borrowed_token,
                    borrowed@,
                ) && final(self).degen_tokens@ == old(self).degen_tokens@ + degen@ && final(self).loan == (if old(self).loan is None {
                    Some(loan_nft)
                } else {
                    old(self).loan
                }) && *final(self) == (IndexFund {
                    borrow_vaults: final(self).borrow_vaults,
                    degen_tokens: final(self).degen_tokens,
                    loan: final(self).loan,
                    ..*old(self)
                })
            }),
    {
        match self.check_lending(fund_admin) {
            Err(e) => {
                return Err(e);
            },
            Ok(_) => {},
        }
        if !self.fund_vaults.contains(collateral) {
            return Err(IndexFundError::NotInFund);
        }
        if self.degenfi_badge.is_none() {
            return Err(IndexFundError::NotRegistered);
        }
        let held = match self.degen_tokens.checked_add(degen) {
            Some(x) => x,
            None => {
                return Err(IndexFundError::Valuation);
            },
        };
        self.borrow_vaults.set(borrowed_token, borrowed);
        if self.loan.is_none() {
            self.loan = Some(loan_nft);
        }
        self.degen_tokens = held;
        Ok(())
    }

    /// Borrows more on loan `loan_id` (the id goes to the protocol only);
    /// the protocol returned `borrowed` of `borrowed_token`, which replaces
    /// any such borrowed tokens held, and `degen` of its tokens. Refused
    /// after `lending_check` when the requested token is not in the fund,
    /// the fund is not registered, or the protocol tokens overflow.
    pub fn borrow_additional(
        &mut self,
        fund_admin: u64,
        loan_id: u64,
        token_requested: u64,
        borrowed_token: u64,
        borrowed: Decimal,
        degen: Decimal,
    ) -> (r: Result<(), IndexFundError>)
        requires
            old(self).wf(),
        ensures
            final(self).wf(),
            ({
                let c = lending_check(*old(self), fund_admin);
                &&& c matches Err(e) ==> r == Err::<(), IndexFundError>(e)
                &&& c is Ok && !old(self).fund_vaults@.dom().contains(token_requested) ==> r
                    == Err::<(), IndexFundError>(IndexFundError::NotInFund)
                &&& c is Ok && old(self).fund_vaults@.dom().contains(token_requested) && old(self).degenfi_badge is None ==> r == Err::<(), IndexFundError>(
                    IndexFundError::NotRegistered,
                )
                &&& r is Ok <==> c is Ok && old(self).fund_vaults@.dom().contains(token_requested)
                    && old(self).degenfi_badge is Some && in_range(old(self).degen_tokens@ + degen@)
                &&& r is Err ==> *final(self) == *old(self)
                &&& r is Ok ==> final(self).borrow_vaults@ == old(self).borrow_vaults@.insert(
                    borrowed_token,
                    borrowed@,
                ) && final(self).degen_tokens@ == old(self).degen_tokens@ + degen@ && *final(self)
                    == (IndexFund {
                    borrow_vaults: final(self).borrow_vaults,
                    degen_tokens: final(self).degen_tokens,
                    ..*old(self)
                })
            }),
    {
        match self.check_lending(fund_admin) {
            Err(e) => {
                return Err(e);
            },
            Ok(_) => {},
        }
        if !self.fund_vaults.contains(token_requested) {
            return Err(IndexFundError::NotInFund);
        }
        if self.degenfi_badge.is_none() {
            return Err(IndexFundError::NotRegistered);
        }
        let held = match self.degen_tokens.checked_add(degen) {
            Some(x) => x,
            None => {
                return Err(IndexFundError::Valuation);
            },
        };
        self.borrow_vaults.set(borrowed_token, borrowed);
        self.degen_tokens = held;
        Ok(())
    }

    /// Repays `amount` of the fund's `token` on loan `loan_id`; the
    /// protocol returned `returned` of `returned_token` into its vault and
    /// `degen` of its tokens. Refused after `lending_check` when the fund
    /// holds a loan other than `loan_id`, the token is not in the fund, its
    /// vault does not hold the amount, the fund is not registered, the
    /// returned token has no vault, or a balance overflows.
    pub fn repay(
        &mut self,
        fund_admin: u64,
        loan_id: u64,
        token: u64,
        amount: Decimal,
        returned_token: u64,
        returned: Decimal,
        degen: Decimal,
    ) -> (r: Result<(), IndexFundError>)
        requires
            old(self).wf(),
        ensures
            final(self).wf(),
            ({
                let c = lending_check(*old(self), fund_admin);
                let v = old(self).fund_vaults@;
                let known = old(self).loan matches Some(l) ==> l == loan_id;
                let taken = v.insert(token, v[token] - amount@);
                let ok_before = c is Ok && known && v.dom().contains(token) && 0 <= amount@ <= v[token]
                    && old(self).degenfi_badge is Some;
                &&& c matches Err(e) ==> r == Err::<(), IndexFundError>(e)
                &&& c is Ok && !known ==> r == Err::<(), IndexFundError>(IndexFundError::UnknownLoan)
                &&& c is Ok && known && !v.dom().contains(token) ==> r == Err::<(), IndexFundError>(
                    IndexFundError::NotInFund,
                )
                &&& c is Ok && known && v.dom().contains(token) && !(0 <= amount@ <= v[token]) ==> r
                    == Err::<(), IndexFundError>(IndexFundError::InsufficientLiquidity)
                &&& c is Ok && known && v.dom().contains(token) && 0 <= amount@ <= v[token] && old(self).degenfi_badge is None ==> r == Err::<(), IndexFundError>(
                    IndexFundError::NotRegistered,
                )
                &&& ok_before && !taken.dom().contains(returned_token) ==> r == Err::<
                    (),
                    IndexFundError,
                >(IndexFundError::NotInFund)
                &&& r is Ok <==> ok_before && put_spec(taken, returned_token, returned@) is Some
                    && in_range(old(self).degen_tokens@ + degen@)
                &&& r is Err ==> *final(self) == *old(self)
                &&& r is Ok ==> final(self).fund_vaults@ == put_spec(
                    taken,
                    returned_token,
                    returned@,
                ).unwrap() && final(self).degen_tokens@ == old(self).degen_tokens@ + degen@
                    && *final(self) == (IndexFund {
                    fund_vaults: final(self).fund_vaults,
                    degen_tokens: final(self).degen_tokens,
                    ..*old(self)
                })
            }),
    {
        match self.check_lending(fund_admin) {
            Err(e) => {
                return Err(e);
            },
            Ok(_) => {},
        }
        match self.loan {
            Some(l) => {
                if l != loan_id {
                    return Err(IndexFundError::UnknownLoan);
                }
            },
            None => {},
        }
        let bal = match self.fund_vaults.get(token) {
            Some(b) => b,
            None => {
                return Err(IndexFundError::NotInFund);
            },
        };
        if amount.lt(Decimal::zero()) || amount.gt(bal) {
            return Err(IndexFundError::InsufficientLiquidity);
        }
        if self.degenfi_badge.is_none() {
            return Err(IndexFundError::NotRegistered);
        }
        let rb = if returned_token == token {
            bal.sub(amount)
        } else {
            match self.fund_vaults.get(returned_token) {
                Some(b) => b,
                None => {
                    return Err(IndexFundError::NotInFund);
                },
            }
        };
        let nb = match rb.checked_add(returned) {
            Some(x) => x,
            None => {
                return Err(IndexFundError::Valuation);
            },
        };
        let held = match self.degen_tokens.checked_add(degen) {
            Some(x) => x,
            None => {
                return Err(IndexFundError::Valuation);
            },
        };
        self.fund_vaults.set(token, bal.sub(amount));
        self.fund_vaults.set(returned_token, nb);
        self.degen_tokens = held;
        Ok(())
    }

    /// Takes collateral back from the protocol, which returned `returned`
    /// of `returned_token` into its vault. Refused after `lending_check`
    /// when the fund is not registered, the returned token has no vault, or
    /// its balance overflows.
    pub fn redeem_collateral(
        &mut self,
        fund_admin: u64,
        returned_token: u64,
        returned: Decimal,
    ) -> (r: Result<(), IndexFundError>)
        requires
            old(self).wf(),
        ensures
            final(self).wf(),
            ({
                let c = lending_check(*old(self), fund_admin);
                &&& c matches Err(e) ==> r == Err::<(), IndexFundError>(e)
                &&& c is Ok && old(self).degenfi_badge is None ==> r == Err::<(), IndexFundError>(
                    IndexFundError::NotRegistered,
                )
                &&& c is Ok && old(self).degenfi_badge is Some && !old(self).fund_vaults@.dom().contains(
                    returned_token,
                ) ==> r == Err::<(), IndexFundError>(IndexFundError::NotInFund)
                &&& r is Ok <==> c is Ok && old(self).degenfi_badge is Some && put_spec(
                    old(self).fund_vaults@,
                    returned_token,
                    returned@,
                ) is Some
                &&& r is Err ==> *final(self) == *old(self)
                &&& r is Ok ==> final(self).fund_vaults@ == put_spec(
                    old(self).fund_vaults@,
                    returned_token,
                    returned@,
                ).unwrap() && *final(self) == (IndexFund {
                    fund_vaults: final(self).fund_vaults,
                    ..*old(self)
                })
            }),
    {
        match self.check_lending(fund_admin) {
            Err(e) => {
                return Err(e);
            },
            Ok(_) => {},
        }
        if self.degenfi_badge.is_none() {
            return Err(IndexFundError::NotRegistered);
        }
        let b = match self.fund_vaults.get(returned_token) {
            Some(b) => b,
            None => {
                return Err(IndexFundError::NotInFund);
            },
        };
        let nb = match b.checked_add(returned) {
            Some(x) => x,
            None => {
                return Err(IndexFundError::Valuation);
            },
        };
        self.fund_vaults.set(returned_token, nb);
        Ok(())
    }

    /// Keeps the `degen` protocol tokens a flash loan or its repayment
    /// returned. Refused after `lending_check` when the fund is not
    /// registered or the protocol tokens overflow.
    fn keep_degen(&mut self, fund_admin: u64, degen: Decimal) -> (r: Result<(), IndexFundError>)
        ensures
            ({
                let c = lending_check(*old(self), fund_admin);
                &&& c matches Err(e) ==> r == Err::<(), IndexFundError>(e)
                &&& c is Ok && old(self).degenfi_badge is None ==> r == Err::<(), IndexFundError>(
                    IndexFundError::NotRegistered,
                )
                &&& r is Ok <==> c is Ok && old(self).degenfi_badge is Some && in_range(
                    old(self).degen_tokens@ + degen@,
                )
                &&& r is Err ==> *final(self) == *old(self)
                &&& r is Ok ==> final(self).degen_tokens@ == old(self).degen_tokens@ + degen@
                    && *final(self) == (IndexFund { degen_tokens: final(self).degen_tokens, ..*old(self) })
            }),
    {
        match self.check_lending(fund_admin) {
            Err(e) => {
                return Err(e);
            },
            Ok(_) => {},
        }
        if self.degenfi_badge.is_none() {
            return Err(IndexFundError::NotRegistered);
        }
        match self.degen_tokens.checked_add(degen) {
            Some(x) => {
                self.degen_tokens = x;
                Ok(())
            },
            None => Err(IndexFundError::Valuation),
        }
    }

    /// Takes a flash loan of `amount` of `token` (both go to the protocol
    /// only); keeps the `degen` protocol tokens it returned. The borrowed
    /// tokens and the loan's transient token the protocol returns are not
    /// kept by the fund (see `keep_degen` for the refusals).
    pub fn flash_borrow(&mut self, fund_admin: u64, token: u64, amount: Decimal, degen: Decimal) -> (r:
        Result<(), IndexFundError>)
        ensures
            ({
                let c = lending_check(*old(self), fund_admin);
                &&& c matches Err(e) ==> r == Err::<(), IndexFundError>(e)
                &&& c is Ok && old(self).degenfi_badge is None ==> r == Err::<(), IndexFundError>(
                    IndexFundError::NotRegistered,
                )
                &&& r is Ok <==> c is Ok && old(self).degenfi_badge is Some && in_range(
                    old(self).degen_tokens@ + degen@,
                )
                &&& r is Err ==> *final(self) == *old(self)
                &&& r is Ok ==> final(self).degen_tokens@ == old(self).degen_tokens@ + degen@
                    && *final(self) == (IndexFund { degen_tokens: final(self).degen_tokens, ..*old(self) })
            }),
    {
        self.keep_degen(fund_admin, degen)
    }

    /// Repays a flash loan (the repayment and the loan's token go to the
    /// protocol only); keeps the `degen` protocol tokens it returned (see
    /// `keep_degen` for the refusals).
    pub fn flash_repay(&mut self, fund_admin: u64, degen: Decimal) -> (r: Result<(), IndexFundError>)
        ensures
            ({
                let c = lending_check(*old(self), fund_admin);
                &&& c matches Err(e) ==> r == Err::<(), IndexFundError>(e)
                &&& c is Ok && old(self).degenfi_badge is None ==> r == Err::<(), IndexFundError>(
                    IndexFundError::NotRegistered,
                )
                &&& r is Ok <==> c is Ok && old(self).degenfi_badge is Some && in_range(
                    old(self).degen_tokens@ + degen@,
                )
                &&& r is Err ==> *final(self) == *old(self)
                &&& r is Ok ==> final(self).degen_tokens@ == old(self).degen_tokens@ + degen@
                    && *final(self) == (IndexFund { degen_tokens: final(self).degen_tokens, ..*old(self) })
            }),
    {
        self.keep_degen(fund_admin, degen)
    }

    /// The loan NFT the fund holds, if any.
    pub fn view_loans(&self) -> (r: Option<u64>)
        ensures
            r == self.loan,
    {
        self.loan
    }
}

} // verus!
