//! The platform's main dashboard: it issues asset manager badges and keeps
//! the fund lockers opened by ticker.
use vstd::prelude::*;
use crate::structs::User;

verus! {

/// The dashboard: the asset manager badge resource and the fund lockers
/// (ticker, locker).
#[derive(Debug)]
pub struct MainDashboard {
    pub asset_manager_resource: u64,
    pub fund_lockers: Vec<(String, u64)>,
}

impl MainDashboard {
    /// A dashboard issuing asset manager badges of `asset_manager_resource`,
    /// with no fund lockers.
    pub fn new(asset_manager_resource: u64) -> (r: MainDashboard)
        ensures
            r.asset_manager_resource == asset_manager_resource,
            r.fund_lockers@.len() == 0,
    {
        MainDashboard { asset_manager_resource, fund_lockers: Vec::new() }
    }

    /// Issues an asset manager badge with the id `id` (drawn at random by
    /// the ledger): its resource, its id, and its data, a user who manages
    /// and has invested in no fund yet.
    pub fn create_am_badge(&self, id: u64) -> (r: (u64, u64, User))
        ensures
            r.0 == self.asset_manager_resource,
            r.1 == id,
            r.2.funds_managed@.len() == 0,
            r.2.funds_invested@.len() == 0,
    {
        (self.asset_manager_resource, id, User { funds_managed: Vec::new(), funds_invested: Vec::new() })
    }
}

} // verus!
