//! Asset and venue identity. Display tickers are never primary keys.
use crate::event::SessionCalendar;
use vstd::prelude::*;
use vstd::string::*;

verus! {

/// Stable project-local handle used in config tables (`source = "A"`).
#[derive(Debug, PartialEq, Eq, PartialOrd, Ord, Hash)]
pub struct AssetKey(pub String);

impl Clone for AssetKey {
    fn clone(&self) -> (r: Self)
        ensures
            r == *self,
    {
        AssetKey(self.0.clone())
    }
}

impl AssetKey {
    pub fn new(s: &str) -> (r: AssetKey)
        ensures
            r.0@ == s@,
    {
        AssetKey(String::from_str(s))
    }

    pub fn as_str(&self) -> (r: &str)
        ensures
            r@ == self.0@,
    {
        self.0.as_str()
    }

    /// Whether two keys spell the same handle.
    pub fn same(&self, other: &AssetKey) -> (r: bool)
        ensures
            r == (self.0@ == other.0@),
    {
        self.0 == other.0
    }

    /// The handle as text.
    pub fn to_text(&self) -> (r: String)
        ensures
            r@ == self.0@,
    {
        self.0.clone()
    }
}

#[derive(Debug, PartialEq, Eq, Hash)]
pub struct ChainId(pub String);

impl Clone for ChainId {
    fn clone(&self) -> (r: Self)
        ensures
            r == *self,
    {
        ChainId(self.0.clone())
    }
}

impl ChainId {
    pub fn new(s: &str) -> (r: ChainId)
        ensures
            r.0@ == s@,
    {
        ChainId(String::from_str(s))
    }

    /// The chain name as text.
    pub fn to_text(&self) -> (r: String)
        ensures
            r@ == self.0@,
    {
        self.0.clone()
    }
}

/// Canonical on-chain / venue locator. Ticker strings are not locators.
#[derive(Debug, PartialEq, Eq, Hash)]
pub enum AssetLocator {
    Mint { address: String },
    Erc20 { address: String },
    CexSymbol { venue: String, symbol: String },
    /// Conventional / non-chain instrument. `instrument_id` is venue-specific, not a ticker alias.
    MarketInstrument { venue: String, instrument_id: String },
    Opaque { id: String },
}

impl Clone for AssetLocator {
    fn clone(&self) -> (r: Self)
        ensures
            r == *self,
    {
        match self {
            AssetLocator::Mint { address } => AssetLocator::Mint { address: address.clone() },
            AssetLocator::Erc20 { address } => AssetLocator::Erc20 { address: address.clone() },
            AssetLocator::CexSymbol { venue, symbol } => AssetLocator::CexSymbol {
                venue: venue.clone(),
                symbol: symbol.clone(),
            },
            AssetLocator::MarketInstrument { venue, instrument_id } => {
                AssetLocator::MarketInstrument {
                    venue: venue.clone(),
                    instrument_id: instrument_id.clone(),
                }
            },
            AssetLocator::Opaque { id } => AssetLocator::Opaque { id: id.clone() },
        }
    }
}

/// Whether two locators name the same place: the same kind with the same texts.
pub open spec fn same_locator(a: AssetLocator, b: AssetLocator) -> bool {
    match (a, b) {
        (AssetLocator::Mint { address: x }, AssetLocator::Mint { address: y }) => x@ == y@,
        (AssetLocator::Erc20 { address: x }, AssetLocator::Erc20 { address: y }) => x@ == y@,
        (
            AssetLocator::CexSymbol { venue: v1, symbol: s1 },
            AssetLocator::CexSymbol { venue: v2, symbol: s2 },
        ) => v1@ == v2@ && s1@ == s2@,
        (
            AssetLocator::MarketInstrument { venue: v1, instrument_id: i1 },
            AssetLocator::MarketInstrument { venue: v2, instrument_id: i2 },
        ) => v1@ == v2@ && i1@ == i2@,
        (AssetLocator::Opaque { id: x }, AssetLocator::Opaque { id: y }) => x@ == y@,
        _ => false,
    }
}

impl AssetLocator {
    /// Whether two locators name the same place.
    pub fn same(&self, other: &AssetLocator) -> (r: bool)
        ensures
            r == same_locator(*self, *other),
    {
        match (self, other) {
            (AssetLocator::Mint { address: x }, AssetLocator::Mint { address: y }) => *x == *y,
            (AssetLocator::Erc20 { address: x }, AssetLocator::Erc20 { address: y }) => *x == *y,
            (
                AssetLocator::CexSymbol { venue: v1, symbol: s1 },
                AssetLocator::CexSymbol { venue: v2, symbol: s2 },
            ) => *v1 == *v2 && *s1 == *s2,
            (
                AssetLocator::MarketInstrument { venue: v1, instrument_id: i1 },
                AssetLocator::MarketInstrument { venue: v2, instrument_id: i2 },
            ) => *v1 == *v2 && *i1 == *i2,
            (AssetLocator::Opaque { id: x }, AssetLocator::Opaque { id: y }) => *x == *y,
            _ => false,
        }
    }
}

#[derive(Debug, PartialEq, Eq, Hash)]
pub struct AssetId {
    pub chain: ChainId,
    pub locator: AssetLocator,
}

/// Whether two identities are the same chain and locator.
pub open spec fn same_asset_id(a: AssetId, b: AssetId) -> bool {
    a.chain.0@ == b.chain.0@ && same_locator(a.locator, b.locator)
}

impl AssetId {
    pub fn same(&self, other: &AssetId) -> (r: bool)
        ensures
            r == same_asset_id(*self, *other),
    {
        self.chain.0 == other.chain.0 && self.locator.same(&other.locator)
    }
}

impl Clone for AssetId {
    fn clone(&self) -> (r: Self)
        ensures
            r == *self,
    {
        AssetId { chain: self.chain.clone(), locator: self.locator.clone() }
    }
}

#[derive(Debug, PartialEq, Eq)]
pub enum ProductKind {
    Wrapper,
    SpotShare,
    LoanParticipation,
    Unknown,
    Other(String),
}

impl Clone for ProductKind {
    fn clone(&self) -> (r: Self)
        ensures
            r == *self,
    {
        match self {
            ProductKind::Wrapper => ProductKind::Wrapper,
            ProductKind::SpotShare => ProductKind::SpotShare,
            ProductKind::LoanParticipation => ProductKind::LoanParticipation,
            ProductKind::Unknown => ProductKind::Unknown,
            ProductKind::Other(s) => ProductKind::Other(s.clone()),
        }
    }
}

#[derive(Debug, PartialEq, Eq)]
pub struct CanonicalAsset {
    pub key: AssetKey,
    pub id: AssetId,
    /// Informational only — never used as identity.
    pub display_symbol: String,
    pub issuer: Option<String>,
    pub product_kind: ProductKind,
    /// Economic exposure label; not identity.
    pub underlying_ref: Option<String>,
    pub role: Option<String>,
    /// How coverage denominators are counted for this asset's response series.
    pub session_calendar: SessionCalendar,
}

#[derive(Debug, PartialEq, Eq, Hash)]
pub struct VenueId(pub String);

} // verus!
