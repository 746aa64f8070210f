//! A price oracle: one price per resource, set by its operator.
use vstd::prelude::*;
use crate::decimal::Decimal;
use crate::ledger::Ledger;

verus! {

/// Prices per resource id.
#[derive(Clone, Debug)]
pub struct PriceOracle {
    pub prices: Ledger,
}

impl PriceOracle {
    /// Entries have distinct ids.
    pub open spec fn wf(&self) -> bool {
        self.prices.wf()
    }

    /// An oracle with no prices.
    pub fn new() -> (r: PriceOracle)
        ensures
            r.wf(),
            r.prices@ == Map::<u64, int>::empty(),
    {
        PriceOracle { prices: Ledger::new() }
    }

    /// Lists `token` with the price one (replacing a price it had).
    pub fn insert_resource(&mut self, token: u64)
        requires
            old(self).wf(),
        ensures
            final(self).wf(),
            final(self).prices@ == old(self).prices@.insert(token, 1_000_000_000_000_000_000),
    {
        self.prices.set(token, Decimal::one());
    }

    /// Sets the price of `token`.
    pub fn set_price(&mut self, token: u64, price: Decimal)
        requires
            old(self).wf(),
        ensures
            final(self).wf(),
            final(self).prices@ == old(self).prices@.insert(token, price@),
    {
        self.prices.set(token, price);
    }

    /// The price of `token`; `None` for an unknown token.
    pub fn get_price(&self, token: u64) -> (r: Option<Decimal>)
        requires
            self.wf(),
        ensures
            r is Some <==> self.prices@.dom().contains(token),
            r matches Some(p) ==> p@ == self.prices@[token],
    {
        self.prices.get(token)
    }
}

} // verus!
