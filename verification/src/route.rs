//! Declared routes, per-route measurement config, and multi-dimensional route evidence.
//!
//! Documentation, executability, observation, and linkage are separate fields.
//! None of them alone establishes net migration.
use crate::day::Day;
use crate::flow::AttributionMethod;
use crate::identity::AssetKey;
use vstd::prelude::*;

verus! {

#[derive(Debug, PartialEq, Eq)]
pub enum RouteMechanism {
    SwapPair,
    IssuerConversion,
    Bridge,
    BurnMint,
    Unknown,
    Other(String),
}

#[derive(Debug, Clone, Copy, PartialEq, Eq, Structural)]
pub enum DocStatus {
    IssuerNamed,
    DocsMentioned,
    /// No documentation of the route.
    Undocumented,
    Unknown,
}

#[derive(Debug, Clone, Copy, PartialEq, Eq, Structural)]
pub enum ExecStatus {
    Permissionless,
    Gated,
    Unknown,
}

#[derive(Debug, Clone, Copy, PartialEq, Eq, Structural)]
pub enum ObservedStatus {
    Yes,
    NoInWindow,
    Unknown,
}

#[derive(Debug, Clone, Copy, PartialEq, Eq, Structural)]
pub enum LinkageClass {
    /// Same transaction / same actor legs.
    DirectSameTx,
    /// Matched on mint/asset pair (not necessarily issuer-operated).
    MintPairMatch,
    /// Issuer burn on A and mint on B (possibly off-chain join).
    IssuerTwoLeg,
    Unlinked,
    Unknown,
}

#[derive(Debug, PartialEq, Eq)]
pub enum Restriction {
    Kyc,
    MinSize,
    Jurisdiction,
    Deadline,
    Whitelist,
    Other(String),
}

impl Clone for Restriction {
    fn clone(&self) -> (r: Self)
        ensures
            r == *self,
    {
        match self {
            Restriction::Kyc => Restriction::Kyc,
            Restriction::MinSize => Restriction::MinSize,
            Restriction::Jurisdiction => Restriction::Jurisdiction,
            Restriction::Deadline => Restriction::Deadline,
            Restriction::Whitelist => Restriction::Whitelist,
            Restriction::Other(s) => Restriction::Other(s.clone()),
        }
    }
}

/// Which route endpoint the flow quantities are denominated on.
#[derive(Debug, Clone, Copy, PartialEq, Eq, Structural)]
pub enum MeasuredLeg {
    Source,
    Destination,
}

#[derive(Debug, Clone, Copy, PartialEq, Eq, Structural)]
pub enum FlowUnitConfig {
    TokenNative,
    QuoteUsd,
    Unknown,
}

#[derive(Debug, PartialEq, Eq)]
pub enum DenominatorPolicy {
    SupplySnapshot { asset: AssetKey, as_of: Day },
}

/// Per-route measurement contract: unit, measured leg, attribution, denominator.
#[derive(Debug, PartialEq, Eq)]
pub struct RouteMeasurement {
    pub unit: FlowUnitConfig,
    pub unit_asset: AssetKey,
    pub measured_leg: MeasuredLeg,
    pub attribution: AttributionMethod,
    pub denominator: Option<DenominatorPolicy>,
}

#[derive(Debug, PartialEq, Eq)]
pub struct Route {
    pub id: String,
    pub source: AssetKey,
    pub destination: AssetKey,
    pub mechanism: RouteMechanism,
    pub measurement: RouteMeasurement,
}

#[derive(Debug, PartialEq, Eq)]
pub struct RouteEvidence {
    pub route_id: String,
    pub documented: DocStatus,
    pub technically_executable: ExecStatus,
    pub observed_on_chain: ObservedStatus,
    pub restrictions: Vec<Restriction>,
    pub linkage_class: LinkageClass,
    pub notes: Option<String>,
}

impl Clone for RouteEvidence {
    fn clone(&self) -> (r: Self)
        ensures
            r.route_id == self.route_id,
            r.documented == self.documented,
            r.technically_executable == self.technically_executable,
            r.observed_on_chain == self.observed_on_chain,
            r.restrictions@ == self.restrictions@,
            r.linkage_class == self.linkage_class,
            r.notes == self.notes,
    {
        let restrictions = self.restrictions.clone();
        proof {
            assert(restrictions@ =~= self.restrictions@);
        }
        let notes = match &self.notes {
            Some(n) => Some(n.clone()),
            None => None,
        };
        RouteEvidence {
            route_id: self.route_id.clone(),
            documented: self.documented,
            technically_executable: self.technically_executable,
            observed_on_chain: self.observed_on_chain,
            restrictions,
            linkage_class: self.linkage_class,
            notes,
        }
    }
}

/// The asset a route's flows are measured on.
pub open spec fn measured_asset_of(route: Route) -> AssetKey {
    match route.measurement.measured_leg {
        MeasuredLeg::Source => route.source,
        MeasuredLeg::Destination => route.destination,
    }
}

impl Route {
    /// Asset key implied by `measured_leg`.
    pub fn measured_asset(&self) -> (r: &AssetKey)
        ensures
            *r == measured_asset_of(*self),
    {
        match self.measurement.measured_leg {
            MeasuredLeg::Source => &self.source,
            MeasuredLeg::Destination => &self.destination,
        }
    }
}

} // verus!
