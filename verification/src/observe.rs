//! Observations distinct from flow accounting: trades, supply snapshots and
//! depth snapshots are different measurements from directional flows.
//! Timestamps are seconds since the Unix epoch (UTC).
use crate::day::Day;
use crate::dec::Dec;
use crate::flow::Quantity;
use crate::identity::{AssetId, AssetKey, VenueId};
use vstd::prelude::*;

verus! {

#[derive(Debug, PartialEq, Eq)]
pub struct Trade {
    pub asset: AssetId,
    pub venue: Option<VenueId>,
    pub timestamp: i64,
    pub notional_usd: Option<Dec>,
    pub base_quantity: Option<Quantity>,
}

#[derive(Debug, PartialEq, Eq)]
pub struct SupplySnapshot {
    pub asset_key: AssetKey,
    pub day: Day,
    pub supply: Dec,
}

#[derive(Debug, PartialEq, Eq)]
pub struct DepthSnapshot {
    pub asset_key: AssetKey,
    pub venue: Option<VenueId>,
    pub timestamp: i64,
    /// Executable size at a stated notional; `None` means unavailable (not zero).
    pub size_at_notional: Option<Dec>,
    pub notional_usd: Option<Dec>,
}

} // verus!
