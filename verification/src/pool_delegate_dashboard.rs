//! A pool delegate's dashboard: the lending pools it runs, keyed by pool
//! name and the token lent, and the checks made before a pool is opened
//! or used.
use vstd::prelude::*;

verus! {

/// Why a pool check failed.
#[derive(Clone, Copy, Debug, PartialEq, Eq, Structural)]
pub enum PoolDelegateError {
    /// No lending pool is kept under the name and token.
    NoPool,
    /// A lending pool is kept under the name and token already.
    PoolExists,
}

/// The dashboard: its lending pools ((name, token), pool) and the pool
/// delegate's badge.
#[derive(Debug)]
pub struct PoolDelegateDashboard {
    pub lending_pools: Vec<((String, u64), u64)>,
    pub fund_admin_address: u64,
    pub fund_admin_id: u64,
    pub price_oracle_address: u64,
    pub registry_address: u64,
}

/// Whether a pool is kept under the name `name` and the token `token`.
pub open spec fn pool_listed(s: Seq<((String, u64), u64)>, name: Seq<char>, token: u64) -> bool {
    exists|i: int| 0 <= i < s.len() && #[trigger] s[i].0.0@ == name && s[i].0.1 == token
}

impl PoolDelegateDashboard {
    /// A dashboard with no pools for the pool delegate badge
    /// `fund_admin_address` / `fund_admin_id`.
    pub fn new(
        fund_admin_address: u64,
        fund_admin_id: u64,
        price_oracle_address: u64,
        registry_address: u64,
    ) -> (r: PoolDelegateDashboard)
        ensures
            r.lending_pools@.len() == 0,
            r.fund_admin_address == fund_admin_address,
            r.fund_admin_id == fund_admin_id,
            r.price_oracle_address == price_oracle_address,
            r.registry_address == registry_address,
    {
        PoolDelegateDashboard {
            lending_pools: Vec::new(),
            fund_admin_address,
            fund_admin_id,
            price_oracle_address,
            registry_address,
        }
    }

    /// Whether a lending pool is kept under `pool_name` for `address`.
    pub fn pool_exists(&self, pool_name: &String, address: u64) -> (r: bool)
        ensures
            r == pool_listed(self.lending_pools@, pool_name@, address),
    {
        let mut i: usize = 0;
        while i < self.lending_pools.len()
            invariant
                0 <= i <= self.lending_pools@.len(),
                forall|j: int|
                    0 <= j < i ==> !(#[trigger] self.lending_pools@[j].0.0@ == pool_name@
                        && self.lending_pools@[j].0.1 == address),
            decreases self.lending_pools@.len() - i,
        {
            if self.lending_pools[i].0.1 == address && self.lending_pools[i].0.0 == *pool_name {
                return true;
            }
            i = i + 1;
        }
        false
    }

    /// Succeeds when a lending pool is kept under `pool_name` for
    /// `address`; `NoPool` otherwise.
    pub fn assert_pool_exists(&self, pool_name: &String, address: u64) -> (r: Result<
        (),
        PoolDelegateError,
    >)
        ensures
            r is Ok <==> pool_listed(self.lending_pools@, pool_name@, address),
            r is Err ==> r == Err::<(), PoolDelegateError>(PoolDelegateError::NoPool),
    {
        if self.pool_exists(pool_name, address) {
            Ok(())
        } else {
            Err(PoolDelegateError::NoPool)
        }
    }

    /// Succeeds when no lending pool is kept under `pool_name` for
    /// `address`; `PoolExists` otherwise.
    pub fn assert_pool_doesnt_exists(&self, pool_name: &String, address: u64) -> (r: Result<
        (),
        PoolDelegateError,
    >)
        ensures
            r is Ok <==> !pool_listed(self.lending_pools@, pool_name@, address),
            r is Err ==> r == Err::<(), PoolDelegateError>(PoolDelegateError::PoolExists),
    {
        if self.pool_exists(pool_name, address) {
            Err(PoolDelegateError::PoolExists)
        } else {
            Ok(())
        }
    }

    /// Records the lending pool `pool`, opened under `pool_name` for the
    /// token `token`, and returns it; refused when a pool is kept under
    /// that name and token.
    pub fn new_lending_pool(&mut self, pool_name: String, token: u64, pool: u64) -> (r: Result<
        u64,
        PoolDelegateError,
    >)
        ensures
            r is Ok <==> !pool_listed(old(self).lending_pools@, pool_name@, token),
            r is Err ==> r == Err::<u64, PoolDelegateError>(PoolDelegateError::PoolExists)
                && final(self).lending_pools@ == old(self).lending_pools@,
            r is Ok ==> r == Ok::<u64, PoolDelegateError>(pool) && final(self).lending_pools@
                == old(self).lending_pools@.push(((pool_name, token), pool)),
            final(self).fund_admin_address == old(self).fund_admin_address,
            final(self).fund_admin_id == old(self).fund_admin_id,
    {
        match self.assert_pool_doesnt_exists(&pool_name, token) {
            Ok(()) => {},
            Err(e) => {
                return Err(e);
            },
        }
        self.lending_pools.push(((pool_name, token), pool));
        Ok(pool)
    }
}

} // verus!
