//! An exchange that prices every swap by an oracle: the tokens paid in go
//! to their pool, and the pool of the token asked for pays out their value
//! at the oracle's prices.
//!
//! A request that fails a check or overflows is refused with an
//! error and leaves the exchange unchanged.
use vstd::prelude::*;
use crate::decimal::{Decimal, in_range, mul_attos, div_attos};
use crate::ledger::Ledger;
use crate::price_oracle::PriceOracle;

verus! {

/// Why the exchange refused a request.
#[derive(Clone, Copy, Debug, PartialEq, Eq, Structural)]
pub enum DexError {
    /// No pool holds this token.
    UnknownPool,
    /// The oracle has no price for this token.
    UnknownPrice,
    /// The pool does not hold the tokens asked for.
    InsufficientLiquidity,
    /// A token cannot be swapped for itself, nor a negative amount.
    InvalidSwap,
    /// An amount overflows or the price asked for is zero.
    Overflow,
}

/// Pool balances per resource id.
#[derive(Clone, Debug)]
pub struct OracleDex {
    pub pools: Ledger,
}

/// Tokens paid out for `amount` tokens priced `price_in` when the token
/// asked for is priced `price_out`: `amount * price_in / price_out`.
pub open spec fn oracle_swap_amount(amount: int, price_in: int, price_out: int) -> int {
    div_attos(mul_attos(amount, price_in), price_out)
}

/// The swap amount at two prices (see `oracle_swap_amount`).
pub fn swap_amount(amount: Decimal, price_in: Decimal, price_out: Decimal) -> (r: Decimal)
    requires
        price_out@ != 0,
        in_range(mul_attos(amount@, price_in@)),
        in_range(oracle_swap_amount(amount@, price_in@, price_out@)),
    ensures
        r@ == oracle_swap_amount(amount@, price_in@, price_out@),
{
    amount.mul(price_in).div(price_out)
}

impl OracleDex {
    /// Entries have distinct ids and balances are never negative.
    pub open spec fn wf(&self) -> bool {
        &&& self.pools.wf()
        &&& forall|k: u64| #[trigger] self.pools@.dom().contains(k) ==> self.pools@[k] >= 0
    }

    /// An exchange without pools.
    pub fn new() -> (r: OracleDex)
        ensures
            r.wf(),
            r.pools@ == Map::<u64, int>::empty(),
    {
        OracleDex { pools: Ledger::new() }
    }

    /// Opens an empty pool for `token` (replacing one it had).
    pub fn create_pool(&mut self, token: u64)
        requires
            old(self).wf(),
        ensures
            final(self).wf(),
            final(self).pools@ == old(self).pools@.insert(token, 0),
    {
        self.pools.set(token, Decimal::zero());
    }

    /// Adds `amount` tokens to their pool.
    pub fn add_liquidity(&mut self, token: u64, amount: Decimal) -> (r: Result<(), DexError>)
        requires
            old(self).wf(),
            amount@ >= 0,
            old(self).pools@.dom().contains(token) ==> in_range(old(self).pools@[token] + amount@),
        ensures
            final(self).wf(),
            !old(self).pools@.dom().contains(token) <==> r is Err,
            r is Err ==> r == Err::<(), DexError>(DexError::UnknownPool) && final(self).pools@
                == old(self).pools@,
            r is Ok ==> final(self).pools@ == old(self).pools@.insert(
                token,
                old(self).pools@[token] + amount@,
            ),
    {
        if self.pools.deposit(token, amount) {
            Ok(())
        } else {
            Err(DexError::UnknownPool)
        }
    }

    /// Takes `amount` tokens out of their pool.
    pub fn remove_liquidity(&mut self, token: u64, amount: Decimal) -> (r: Result<
        Decimal,
        DexError,
    >)
        requires
            old(self).wf(),
            amount@ >= 0,
        ensures
            final(self).wf(),
            !old(self).pools@.dom().contains(token) ==> r == Err::<Decimal, DexError>(
                DexError::UnknownPool,
            ),
            old(self).pools@.dom().contains(token) ==> (amount@ > old(self).pools@[token] <==> r
                == Err::<Decimal, DexError>(DexError::InsufficientLiquidity)),
            r is Err ==> final(self).pools@ == old(self).pools@,
            r is Ok ==> r == Ok::<Decimal, DexError>(amount) && final(self).pools@ == old(
                self).pools@.insert(token, old(self).pools@[token] - amount@),
    {
        match self.pools.get(token) {
            None => Err(DexError::UnknownPool),
            Some(balance) => {
                if amount.gt(balance) {
                    return Err(DexError::InsufficientLiquidity);
                }
                self.pools.set(token, balance.sub(amount));
                Ok(amount)
            },
        }
    }

    /// Swaps `amount` of `token_in` for `token_out` at the oracle's prices;
    /// returns the tokens paid out.
    pub fn swap(&mut self, oracle: &PriceOracle, token_in: u64, amount: Decimal, token_out: u64) -> (r:
        Result<Decimal, DexError>)
        requires
            old(self).wf(),
            oracle.wf(),
            amount@ >= 0,
            token_in != token_out,
            old(self).pools@.dom().contains(token_in) ==> in_range(
                old(self).pools@[token_in] + amount@,
            ),
            oracle.prices@.dom().contains(token_in) && oracle.prices@.dom().contains(token_out) ==> {
                let p_in = oracle.prices@[token_in];
                let p_out = oracle.prices@[token_out];
                &&& p_out != 0
                &&& in_range(mul_attos(amount@, p_in))
                &&& in_range(oracle_swap_amount(amount@, p_in, p_out))
            },
        ensures
            final(self).wf(),
            ({
                let pools = old(self).pools@;
                let prices = oracle.prices@;
                let known_pools = pools.dom().contains(token_in) && pools.dom().contains(token_out);
                let known_prices = prices.dom().contains(token_in) && prices.dom().contains(
                    token_out,
                );
                let out = oracle_swap_amount(amount@, prices[token_in], prices[token_out]);
                &&& !known_pools ==> r == Err::<Decimal, DexError>(DexError::UnknownPool)
                &&& known_pools && !known_prices ==> r == Err::<Decimal, DexError>(
                    DexError::UnknownPrice,
                )
                &&& known_pools && known_prices && (out < 0 || out > pools[token_out]) ==> r
                    == Err::<Decimal, DexError>(DexError::InsufficientLiquidity)
                &&& r is Err ==> final(self).pools@ == pools
                &&& r is Ok <==> known_pools && known_prices && 0 <= out <= pools[token_out]
                &&& r matches Ok(x) ==> x@ == out && final(self).pools@ == pools.insert(
                    token_in,
                    pools[token_in] + amount@,
                ).insert(token_out, pools[token_out] - out)
            }),
    {
        let bal_in = match self.pools.get(token_in) {
            Some(b) => b,
            None => {
                return Err(DexError::UnknownPool);
            },
        };
        let bal_out = match self.pools.get(token_out) {
            Some(b) => b,
            None => {
                return Err(DexError::UnknownPool);
            },
        };
        let p_in = match oracle.get_price(token_in) {
            Some(p) => p,
            None => {
                return Err(DexError::UnknownPrice);
            },
        };
        let p_out = match oracle.get_price(token_out) {
            Some(p) => p,
            None => {
                return Err(DexError::UnknownPrice);
            },
        };
        let out = swap_amount(amount, p_in, p_out);
        if out.lt(Decimal::zero()) || out.gt(bal_out) {
            return Err(DexError::InsufficientLiquidity);
        }
        self.pools.set(token_in, bal_in.add(amount));
        self.pools.set(token_out, bal_out.sub(out));
        Ok(out)
    }
}

/// A swap of `amount` of `token_in` for `token_out` on an exchange with
/// pools `pools` at `prices`: the pools after and the tokens paid out; or
/// why it is refused.
pub open spec fn dex_swap(pools: Map<u64, int>, prices: Map<u64, int>, token_in: u64, amount: int, token_out: u64) -> Result<
    (Map<u64, int>, int),
    DexError,
> {
    if amount < 0 || token_in == token_out {
        Err(DexError::InvalidSwap)
    } else if !(pools.dom().contains(token_in) && pools.dom().contains(token_out)) {
        Err(DexError::UnknownPool)
    } else if !(prices.dom().contains(token_in) && prices.dom().contains(token_out)) {
        Err(DexError::UnknownPrice)
    } else {
        let p_in = prices[token_in];
        let p_out = prices[token_out];
        if p_out == 0 || !in_range(mul_attos(amount, p_in)) || !in_range(
            oracle_swap_amount(amount, p_in, p_out),
        ) || !in_range(pools[token_in] + amount) {
            Err(DexError::Overflow)
        } else {
            let out = oracle_swap_amount(amount, p_in, p_out);
            if out < 0 || out > pools[token_out] {
                Err(DexError::InsufficientLiquidity)
            } else {
                Ok((pools.insert(token_in, pools[token_in] + amount).insert(token_out, pools[token_out] - out), out))
            }
        }
    }
}

impl OracleDex {
    /// Swaps as `swap` does, refusing what `swap` does not take (see
    /// `dex_swap`); a refused swap leaves the exchange unchanged.
    pub fn checked_swap(&mut self, oracle: &PriceOracle, token_in: u64, amount: Decimal, token_out: u64) -> (r:
        Result<Decimal, DexError>)
        requires
            old(self).wf(),
            oracle.wf(),
        ensures
            final(self).wf(),
            match dex_swap(old(self).pools@, oracle.prices@, token_in, amount@, token_out) {
                Err(e) => r == Err::<Decimal, DexError>(e) && final(self).pools@ == old(self).pools@,
                Ok(x) => r matches Ok(v) && v@ == x.1 && final(self).pools@ == x.0,
            },
    {
        if amount.lt(Decimal::zero()) || token_in == token_out {
            return Err(DexError::InvalidSwap);
        }
        let bal_in = match self.pools.get(token_in) {
            Some(b) => b,
            None => {
                return Err(DexError::UnknownPool);
            },
        };
        if !self.pools.contains(token_out) {
            return Err(DexError::UnknownPool);
        }
        let p_in = match oracle.get_price(token_in) {
            Some(p) => p,
            None => {
                return Err(DexError::UnknownPrice);
            },
        };
        let p_out = match oracle.get_price(token_out) {
            Some(p) => p,
            None => {
                return Err(DexError::UnknownPrice);
            },
        };
        if p_out.is_zero() || bal_in.checked_add(amount).is_none() {
            return Err(DexError::Overflow);
        }
        let v = match amount.checked_mul(p_in) {
            Some(v) => v,
            None => {
                return Err(DexError::Overflow);
            },
        };
        if v.checked_div(p_out).is_none() {
            return Err(DexError::Overflow);
        }
        self.swap(oracle, token_in, amount, token_out)
    }
}

} // verus!
