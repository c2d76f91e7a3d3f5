//! Control-group declarations. Comparison is not causal identification.
use crate::identity::AssetKey;
use vstd::prelude::*;

verus! {

#[derive(Debug, PartialEq, Eq)]
pub enum ControlRelation {
    SameIssuerDifferentUnderlying,
    SameUnderlyingDifferentIssuer,
    SameChainVenue,
    SimilarWrapperType,
    Unaffected,
    Other(String),
}

#[derive(Debug, PartialEq, Eq)]
pub struct ControlAsset {
    pub key: AssetKey,
    pub relation: ControlRelation,
}

} // verus!
