//! A managed investment pool: deposits of any priced asset mint pool
//! tokens in proportion to the value they add, and the manager trades the
//! pool's assets on an exchange in another component (its outcome reaches
//! the pool as an argument). Asset prices come from an oracle quoting them
//! in the pool's base currency.
//!
//! A request that fails a check (or lacks a price) or overflows is
//! refused here with an error and leaves the pool unchanged.
use vstd::prelude::*;
use crate::decimal::{Decimal, in_range, mul_attos, div_attos};
use crate::ledger::Ledger;
use crate::price_oracle::PriceOracle;
use crate::index_fund::{value_fold, value_of};

verus! {

/// Why the pool refused a request.
#[derive(Clone, Copy, Debug, PartialEq, Eq, Structural)]
pub enum PoolError {
    /// The bucket holds no tokens.
    EmptyBucket,
    /// No pool tokens circulate yet, or the pool's assets are worth
    /// nothing.
    NotFunded,
    /// The oracle has no price for the asset.
    PriceUnavailable,
    /// No pool tokens would be minted.
    NothingToMint,
    /// The amount to sell is not above zero.
    InvalidAmount,
    /// The pool holds none of this asset.
    UnknownAsset,
    /// The pool holds too little of the asset.
    InsufficientAsset,
    /// The exchange has no pool for this pair.
    NoExchangePool,
    /// An amount overflows or a divisor is zero.
    Arithmetic,
}

/// The pool: asset vaults, pool tokens in circulation and the fee.
#[derive(Debug)]
pub struct InvestmentPool {
    pub pool_vaults: Ledger,
    pub pool_token: u64,
    pub pool_token_supply: Decimal,
    pub pool_manager_badge: u64,
    pub performance_fee: Decimal,
    pub performance_fee_vault: Decimal,
    pub oracle: u64,
    pub dex: u64,
    pub base_currency: u64,
    pub fund_name: String,
    pub fund_symbol: String,
}

impl InvestmentPool {
    /// Vault entries have distinct assets.
    pub open spec fn wf(&self) -> bool {
        self.pool_vaults.wf()
    }

    /// The pool's value at the oracle's prices, or `None` where a price is
    /// missing or the sum overflows.
    pub open spec fn market_value(&self, prices: Map<u64, int>) -> Option<int> {
        value_fold(self.pool_vaults.entries@, prices, 0, self.pool_vaults.entries@.len() as int)
    }

    /// An empty pool with the given fee, oracle, exchange and base
    /// currency; the manager holds the badge `pool_manager_badge`.
    pub fn instantiate_pool(
        performance_fee: Decimal,
        oracle: u64,
        dex: u64,
        base_currency: u64,
        fund_name: String,
        fund_symbol: String,
        pool_token: u64,
        pool_manager_badge: u64,
    ) -> (r: InvestmentPool)
        ensures
            r.wf(),
            r.pool_vaults@ == Map::<u64, int>::empty(),
            r.pool_token == pool_token && r.pool_token_supply@ == 0,
            r.pool_manager_badge == pool_manager_badge,
            r.performance_fee == performance_fee && r.performance_fee_vault@ == 0,
            r.oracle == oracle && r.dex == dex && r.base_currency == base_currency,
            r.fund_name@ == fund_name@ && r.fund_symbol@ == fund_symbol@,
    {
        InvestmentPool {
            pool_vaults: Ledger::new(),
            pool_token,
            pool_token_supply: Decimal::zero(),
            pool_manager_badge,
            performance_fee,
            performance_fee_vault: Decimal::zero(),
            oracle,
            dex,
            base_currency,
            fund_name,
            fund_symbol,
        }
    }

    /// Pool tokens in circulation.
    pub fn amount_pool_token(&self) -> (r: Decimal)
        ensures
            r == self.pool_token_supply,
    {
        self.pool_token_supply
    }

    /// The oracle's price of `token`.
    pub fn get_asset_price(&self, oracle: &PriceOracle, token: u64) -> (r: Result<
        Decimal,
        PoolError,
    >)
        requires
            oracle.wf(),
        ensures
            r is Ok <==> oracle.prices@.dom().contains(token),
            r is Err ==> r == Err::<Decimal, PoolError>(PoolError::PriceUnavailable),
            r matches Ok(p) ==> p@ == oracle.prices@[token],
    {
        match oracle.get_price(token) {
            Some(p) => Ok(p),
            None => Err(PoolError::PriceUnavailable),
        }
    }

    /// The pool token's price and the pool's value: refused while no pool
    /// tokens circulate or the pool is worth nothing.
    pub fn pool_token_price_marketcap(&self, oracle: &PriceOracle) -> (r: Result<
        (Decimal, Decimal),
        PoolError,
    >)
        requires
            self.wf(),
            oracle.wf(),
        ensures
            ({
                let v = self.market_value(oracle.prices@);
                let s = self.pool_token_supply@;
                &&& s <= 0 ==> r == Err::<(Decimal, Decimal), PoolError>(PoolError::NotFunded)
                &&& r is Ok <==> s > 0 && v is Some && v.unwrap() > 0 && in_range(
                    div_attos(v.unwrap(), s),
                )
                &&& s > 0 && v is Some && v.unwrap() <= 0 ==> r == Err::<
                    (Decimal, Decimal),
                    PoolError,
                >(PoolError::NotFunded)
                &&& r matches Ok(x) ==> x.1@ == v.unwrap() && x.0@ == div_attos(v.unwrap(), s)
            }),
    {
        if self.pool_token_supply.le(Decimal::zero()) {
            return Err(PoolError::NotFunded);
        }
        let total = match value_of(&self.pool_vaults.entries, oracle, Decimal::zero()) {
            Some(t) => t,
            None => {
                return Err(PoolError::PriceUnavailable);
            },
        };
        if total.le(Decimal::zero()) {
            return Err(PoolError::NotFunded);
        }
        match total.checked_div(self.pool_token_supply) {
            Some(p) => Ok((p, total)),
            None => Err(PoolError::Arithmetic),
        }
    }

    /// The pool's value (see `pool_token_price_marketcap`).
    pub fn get_market_cap(&self, oracle: &PriceOracle) -> (r: Result<Decimal, PoolError>)
        requires
            self.wf(),
            oracle.wf(),
        ensures
            ({
                let v = self.market_value(oracle.prices@);
                let s = self.pool_token_supply@;
                &&& r is Ok <==> s > 0 && v is Some && v.unwrap() > 0 && in_range(
                    div_attos(v.unwrap(), s),
                )
                &&& s <= 0 ==> r == Err::<Decimal, PoolError>(PoolError::NotFunded)
                &&& r matches Ok(x) ==> x@ == v.unwrap()
            }),
    {
        match self.pool_token_price_marketcap(oracle) {
            Ok((_, cap)) => Ok(cap),
            Err(e) => Err(e),
        }
    }

    /// Adds `amount` to the vault of `resource`, opening it if needed.
    fn deposit_to_pool(&mut self, resource: u64, amount: Decimal) -> (r: Result<(), PoolError>)
        requires
            old(self).wf(),
        ensures
            final(self).wf(),
            ({
                let v = old(self).pool_vaults@;
                let held = if v.dom().contains(resource) {
                    v[resource]
                } else {
                    0
                };
                &&& r is Ok <==> amount@ != 0 && in_range(held + amount@)
                &&& amount@ == 0 ==> r == Err::<(), PoolError>(PoolError::EmptyBucket)
                &&& r is Err ==> *final(self) == *old(self)
                &&& r is Ok ==> final(self).pool_vaults@ == v.insert(resource, held + amount@)
                    && *final(self) == (InvestmentPool {
                    pool_vaults: final(self).pool_vaults,
                    ..*old(self)
                })
            }),
    {
        if amount.is_zero() {
            return Err(PoolError::EmptyBucket);
        }
        let held = match self.pool_vaults.get(resource) {
            Some(h) => h,
            None => Decimal::zero(),
        };
        match held.checked_add(amount) {
            Some(n) => {
                self.pool_vaults.set(resource, n);
                Ok(())
            },
            None => Err(PoolError::Arithmetic),
        }
    }

    /// Funds the pool with `amount` of `resource`: mints pool tokens worth
    /// the value added, `value / market cap * supply` (or `value / start
    /// price` while none circulate). The market cap is
    /// read first, so a pool with no pool tokens yet refuses every funding.
    pub fn fund_pool(&mut self, resource: u64, amount: Decimal, oracle: &PriceOracle) -> (r: Result<
        Decimal,
        PoolError,
    >)
        requires
            old(self).wf(),
            oracle.wf(),
        ensures
            final(self).wf(),
            ({
                let o = *old(self);
                let prices = oracle.prices@;
                let cap = o.market_value(prices);
                let s = o.pool_token_supply@;
                let value = mul_attos(prices[resource], amount@);
                let minted = mul_attos(div_attos(value, cap.unwrap()), s);
                let held = if o.pool_vaults@.dom().contains(resource) {
                    o.pool_vaults@[resource]
                } else {
                    0
                };
                &&& amount@ == 0 ==> r == Err::<Decimal, PoolError>(PoolError::EmptyBucket)
                &&& amount@ != 0 && s <= 0 ==> r == Err::<Decimal, PoolError>(PoolError::NotFunded)
                &&& r is Ok <==> amount@ != 0 && s > 0 && cap is Some && cap.unwrap() > 0
                    && in_range(div_attos(cap.unwrap(), s)) && prices.dom().contains(resource)
                    && in_range(value) && in_range(div_attos(value, cap.unwrap())) && in_range(minted)
                    && in_range(held + amount@) && minted > 0 && in_range(s + minted)
                &&& r is Err ==> *final(self) == o
                &&& r matches Ok(m) ==> {
                    &&& m@ == minted
                    &&& final(self).pool_token_supply@ == s + minted
                    &&& final(self).pool_vaults@ == o.pool_vaults@.insert(resource, held + amount@)
                    &&& *final(self) == (InvestmentPool {
                        pool_vaults: final(self).pool_vaults,
                        pool_token_supply: final(self).pool_token_supply,
                        ..o
                    })
                }
            }),
    {
        if amount.is_zero() {
            return Err(PoolError::EmptyBucket);
        }
        let cap = match self.get_market_cap(oracle) {
            Ok(c) => c,
            Err(e) => {
                return Err(e);
            },
        };
        let price = match self.get_asset_price(oracle, resource) {
            Ok(p) => p,
            Err(e) => {
                return Err(e);
            },
        };
        let value = match price.checked_mul(amount) {
            Some(v) => v,
            None => {
                return Err(PoolError::Arithmetic);
            },
        };
        let share = match value.checked_div(cap) {
            Some(x) => x,
            None => {
                return Err(PoolError::Arithmetic);
            },
        };
        let minted = match share.checked_mul(self.pool_token_supply) {
            Some(x) => x,
            None => {
                return Err(PoolError::Arithmetic);
            },
        };
        let held = match self.pool_vaults.get(resource) {
            Some(h) => h,
            None => Decimal::zero(),
        };
        if held.checked_add(amount).is_none() {
            return Err(PoolError::Arithmetic);
        }
        if minted.le(Decimal::zero()) {
            return Err(PoolError::NothingToMint);
        }
        let supply = match self.pool_token_supply.checked_add(minted) {
            Some(x) => x,
            None => {
                return Err(PoolError::Arithmetic);
            },
        };
        let _ = self.deposit_to_pool(resource, amount);
        self.pool_token_supply = supply;
        Ok(minted)
    }

    /// Sells `amount_to_sell` of `asset_to_sell` for `asset_to_buy` on the
    /// exchange, which has a pool for the pair (`pool_exists`) and
    /// returned `received`; the proceeds go to their vault.
    pub fn trade_assets(
        &mut self,
        asset_to_sell: u64,
        amount_to_sell: Decimal,
        asset_to_buy: u64,
        pool_exists: bool,
        received: Decimal,
    ) -> (r: Result<(), PoolError>)
        requires
            old(self).wf(),
        ensures
            final(self).wf(),
            ({
                let v = old(self).pool_vaults@;
                let after = v.insert(asset_to_sell, v[asset_to_sell] - amount_to_sell@);
                let held = if after.dom().contains(asset_to_buy) {
                    after[asset_to_buy]
                } else {
                    0
                };
                &&& amount_to_sell@ <= 0 ==> r == Err::<(), PoolError>(PoolError::InvalidAmount)
                &&& amount_to_sell@ > 0 && !v.dom().contains(asset_to_sell) ==> r == Err::<
                    (),
                    PoolError,
                >(PoolError::UnknownAsset)
                &&& amount_to_sell@ > 0 && v.dom().contains(asset_to_sell) && v[asset_to_sell]
                    < amount_to_sell@ ==> r == Err::<(), PoolError>(PoolError::InsufficientAsset)
                &&& amount_to_sell@ > 0 && v.dom().contains(asset_to_sell) && v[asset_to_sell]
                    >= amount_to_sell@ && !pool_exists ==> r == Err::<(), PoolError>(
                    PoolError::NoExchangePool,
                )
                &&& r is Ok <==> amount_to_sell@ > 0 && v.dom().contains(asset_to_sell)
                    && v[asset_to_sell] >= amount_to_sell@ && pool_exists && received@ != 0
                    && in_range(held + received@)
                &&& r is Err ==> *final(self) == *old(self)
                &&& r is Ok ==> final(self).pool_vaults@ == after.insert(
                    asset_to_buy,
                    held + received@,
                ) && *final(self) == (InvestmentPool {
                    pool_vaults: final(self).pool_vaults,
                    ..*old(self)
                })
            }),
    {
        if amount_to_sell.le(Decimal::zero()) {
            return Err(PoolError::InvalidAmount);
        }
        let bal = match self.pool_vaults.get(asset_to_sell) {
            Some(b) => b,
            None => {
                return Err(PoolError::UnknownAsset);
            },
        };
        if bal.lt(amount_to_sell) {
            return Err(PoolError::InsufficientAsset);
        }
        if !pool_exists {
            return Err(PoolError::NoExchangePool);
        }
        if received.is_zero() {
            return Err(PoolError::EmptyBucket);
        }
        let held = if asset_to_buy == asset_to_sell {
            bal.sub(amount_to_sell)
        } else {
            match self.pool_vaults.get(asset_to_buy) {
                Some(h) => h,
                None => Decimal::zero(),
            }
        };
        if held.checked_add(received).is_none() {
            return Err(PoolError::Arithmetic);
        }
        self.pool_vaults.set(asset_to_sell, bal.sub(amount_to_sell));
        let _ = self.deposit_to_pool(asset_to_buy, received);
        Ok(())
    }
}

} // verus!
