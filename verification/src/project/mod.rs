//! Project configuration: mapping the parsed `project.toml` tables onto the
//! model, and validating it (identity uniqueness, windows, routes and their
//! measurement contracts, evidence and control references).
//!
//! Reading and parsing the file, and checking that input files exist, are
//! left to the caller.
use crate::control::{ControlAsset, ControlRelation};
use crate::coverage::{CoverageGap, GapSource, MissingKind};
use crate::day::Day;
use crate::event::{Event, EventWindow, SessionCalendar, WindowUse};
use crate::flow::AttributionMethod;
use crate::identity::{AssetId, AssetKey, AssetLocator, CanonicalAsset, ChainId, ProductKind};
use crate::route::{
    DenominatorPolicy, DocStatus, ExecStatus, FlowUnitConfig, LinkageClass, MeasuredLeg,
    ObservedStatus, Restriction, Route, RouteEvidence, RouteMeasurement, RouteMechanism,
};
use crate::text::{copy_opt_text, text_is};
use vstd::prelude::*;
use vstd::string::*;

pub mod map;
pub mod validate;

verus! {

/// The `schema_version` this engine reads.
pub const SCHEMA_VERSION: u32 = 3;

#[derive(Debug, PartialEq, Eq)]
pub enum ProjectError {
    Validation(String),
    UnsupportedSchema(u32),
}

impl ProjectError {
    /// The error as text.
    pub fn message(&self) -> (r: String)
        ensures
            self matches ProjectError::Validation(m) ==> r@ == "validation failed: "@ + m@,
            self matches ProjectError::UnsupportedSchema(v) ==> r@ == "unsupported schema_version "@
                + crate::text::decimal_digits(v as nat)
                + "; expected 3 (v1 global [flow] removed — use routes.measurement)"@,
    {
        match self {
            ProjectError::Validation(m) => String::from_str("validation failed: ").concat(m.as_str()),
            ProjectError::UnsupportedSchema(v) => String::from_str("unsupported schema_version ").concat(
                crate::text::count_text(*v as usize).as_str(),
            ).concat("; expected 3 (v1 global [flow] removed — use routes.measurement)"),
        }
    }
}

/// `[response]` table.
#[derive(Debug, PartialEq, Eq)]
pub struct ResponseConfig {
    pub baseline_window: String,
}

/// `[data_provenance]` table.
#[derive(Debug, PartialEq, Eq)]
pub struct DataProvenanceMeta {
    pub source_description: Option<String>,
    pub data_extracted_at: Option<String>,
}

impl Clone for ResponseConfig {
    fn clone(&self) -> (r: Self)
        ensures
            r == *self,
    {
        ResponseConfig { baseline_window: self.baseline_window.clone() }
    }
}

impl Clone for DataProvenanceMeta {
    fn clone(&self) -> (r: Self)
        ensures
            r == *self,
    {
        DataProvenanceMeta {
            source_description: copy_opt_text(&self.source_description),
            data_extracted_at: copy_opt_text(&self.data_extracted_at),
        }
    }
}

#[derive(Debug, PartialEq, Eq)]
pub struct InputPaths {
    pub flows: Option<String>,
    pub supply: Option<String>,
    pub response: Option<String>,
    pub references: Option<String>,
}

#[derive(Debug, PartialEq, Eq)]
pub struct ProjectConfig {
    pub schema_version: u32,
    pub project_id: String,
    pub name: String,
    pub event: Event,
    pub windows: Vec<EventWindow>,
    pub assets: Vec<CanonicalAsset>,
    pub routes: Vec<Route>,
    pub route_evidence: Vec<RouteEvidence>,
    pub controls: Vec<ControlAsset>,
    pub coverage_declared: Vec<CoverageGap>,
    pub inputs: InputPaths,
    pub response: Option<ResponseConfig>,
    pub data_provenance: Option<DataProvenanceMeta>,
}

/// The `[event]` table as written.
#[derive(Debug, PartialEq, Eq)]
pub struct RawEvent {
    pub id: String,
    pub name: String,
    /// Seconds since the Unix epoch (UTC).
    pub timestamp: i64,
}

/// A `[[windows]]` entry as written; `applies_to` omitted means both sections.
#[derive(Debug, PartialEq, Eq)]
pub struct RawWindow {
    pub name: String,
    pub start: Day,
    pub end: Day,
    pub applies_to: Option<Vec<String>>,
}

/// The locator keys of an `[[assets]]` entry.
#[derive(Debug, PartialEq, Eq)]
pub enum RawLocator {
    Mint { mint: String },
    Erc20 { erc20: String },
    Cex { cex_venue: String, cex_symbol: String },
    Market { venue: String, instrument_id: String },
    Opaque { opaque_id: String },
}

/// An `[[assets]]` entry as written.
#[derive(Debug, PartialEq, Eq)]
pub struct RawAsset {
    pub key: String,
    pub chain: String,
    pub locator: RawLocator,
    pub display_symbol: String,
    pub issuer: Option<String>,
    pub product_kind: String,
    pub underlying_ref: Option<String>,
    pub role: Option<String>,
    pub session_calendar: Option<String>,
}

#[derive(Debug, PartialEq, Eq)]
pub struct RawDenominator {
    pub kind: String,
    pub asset: String,
    pub as_of: Day,
}

#[derive(Debug, PartialEq, Eq)]
pub struct RawMeasurement {
    pub unit: String,
    pub unit_asset: String,
    pub measured_leg: String,
    pub attribution: String,
    pub denominator: Option<RawDenominator>,
}

#[derive(Debug, PartialEq, Eq)]
pub struct RawRoute {
    pub id: String,
    pub source: String,
    pub destination: String,
    pub mechanism: String,
    pub measurement: RawMeasurement,
}

#[derive(Debug, PartialEq, Eq)]
pub struct RawRouteEvidence {
    pub route_id: String,
    pub documented: String,
    pub technically_executable: String,
    pub observed_on_chain: String,
    pub restrictions: Vec<String>,
    pub linkage_class: String,
    pub notes: Option<String>,
}

#[derive(Debug, PartialEq, Eq)]
pub struct RawControl {
    pub key: String,
    pub relation: String,
}

#[derive(Debug, PartialEq, Eq)]
pub struct RawCoverage {
    pub kind: String,
    pub scope: String,
    pub reason: String,
}

#[derive(Debug, PartialEq, Eq)]
pub struct RawInputs {
    pub flows: Option<String>,
    pub supply: Option<String>,
    pub response: Option<String>,
    pub references: Option<String>,
}

/// The whole `project.toml` as written.
#[derive(Debug, PartialEq, Eq)]
pub struct RawProject {
    pub schema_version: u32,
    pub project_id: String,
    pub name: String,
    pub event: RawEvent,
    pub windows: Vec<RawWindow>,
    pub assets: Vec<RawAsset>,
    pub routes: Vec<RawRoute>,
    pub route_evidence: Vec<RawRouteEvidence>,
    /// Whether a global `[flow]` table is present (removed in schema v2).
    pub has_global_flow: bool,
    pub controls: Vec<RawControl>,
    pub coverage_declared: Vec<RawCoverage>,
    pub inputs: RawInputs,
    pub response: Option<ResponseConfig>,
    pub data_provenance: Option<DataProvenanceMeta>,
}

/// `product_kind` when omitted.
pub fn default_product_kind() -> (r: String)
    ensures
        r@ == "unknown"@,
{
    String::from_str("unknown")
}

/// Status fields when omitted.
pub fn default_unknown() -> (r: String)
    ensures
        r@ == "unknown"@,
{
    String::from_str("unknown")
}

/// A validation error with the given message.
pub open spec fn invalid<T>(r: Result<T, ProjectError>, m: Seq<char>) -> bool {
    r matches Err(ProjectError::Validation(x)) && x@ == m
}

fn validation<T>(m: String) -> (r: Result<T, ProjectError>)
    ensures
        invalid(r, m@),
{
    Err(ProjectError::Validation(m))
}

/// The message naming an unrecognized value of a field.
pub open spec fn unrecognized_message(field: Seq<char>, value: Seq<char>) -> Seq<char> {
    "unrecognized "@ + field + " '"@ + value + "'"@
}

fn unrecognized(field: &str, value: &String) -> (r: String)
    ensures
        r@ == unrecognized_message(field@, value@),
{
    String::from_str("unrecognized ").concat(field).concat(" '").concat(value.as_str()).concat("'")
}

/// Checks the header of a parsed project: the schema version and the removed
/// global `[flow]` table.
pub fn check_schema(schema_version: u32, has_global_flow: bool) -> (r: Result<(), ProjectError>)
    ensures
        schema_version != SCHEMA_VERSION ==> r == Err::<(), ProjectError>(
            ProjectError::UnsupportedSchema(schema_version),
        ),
        schema_version == SCHEMA_VERSION && has_global_flow ==> invalid(
            r,
            "global [flow] was removed in schema v2; declare measurement on each [[routes]] entry"@,
        ),
        r is Ok <==> (schema_version == SCHEMA_VERSION && !has_global_flow),
{
    if schema_version != SCHEMA_VERSION {
        return Err(ProjectError::UnsupportedSchema(schema_version));
    }
    if has_global_flow {
        return validation(
            String::from_str(
                "global [flow] was removed in schema v2; declare measurement on each [[routes]] entry",
            ),
        );
    }
    Ok(())
}

/// The product kind a `product_kind` value names.
pub open spec fn product_kind_named(s: Seq<char>, k: ProductKind) -> bool {
    if s == "wrapper"@ {
        k == ProductKind::Wrapper
    } else if s == "spot_share"@ {
        k == ProductKind::SpotShare
    } else if s == "loan_participation"@ {
        k == ProductKind::LoanParticipation
    } else if s == "unknown"@ {
        k == ProductKind::Unknown
    } else {
        k matches ProductKind::Other(o) && o@ == s
    }
}

pub fn parse_product_kind(s: &String) -> (r: ProductKind)
    ensures
        product_kind_named(s@, r),
{
    if text_is(s, "wrapper") {
        ProductKind::Wrapper
    } else if text_is(s, "spot_share") {
        ProductKind::SpotShare
    } else if text_is(s, "loan_participation") {
        ProductKind::LoanParticipation
    } else if text_is(s, "unknown") {
        ProductKind::Unknown
    } else {
        ProductKind::Other(s.clone())
    }
}

/// The mechanism a `mechanism` value names.
pub open spec fn mechanism_named(s: Seq<char>, m: RouteMechanism) -> bool {
    if s == "swap_pair"@ {
        m == RouteMechanism::SwapPair
    } else if s == "issuer_conversion"@ {
        m == RouteMechanism::IssuerConversion
    } else if s == "bridge"@ {
        m == RouteMechanism::Bridge
    } else if s == "burn_mint"@ {
        m == RouteMechanism::BurnMint
    } else if s == "unknown"@ {
        m == RouteMechanism::Unknown
    } else {
        m matches RouteMechanism::Other(o) && o@ == s
    }
}

/// Every mechanism name is accepted; unlisted ones are kept as `Other`.
pub fn parse_mechanism(s: &String) -> (r: Result<RouteMechanism, ProjectError>)
    ensures
        r matches Ok(m) && mechanism_named(s@, m),
{
    if text_is(s, "swap_pair") {
        Ok(RouteMechanism::SwapPair)
    } else if text_is(s, "issuer_conversion") {
        Ok(RouteMechanism::IssuerConversion)
    } else if text_is(s, "bridge") {
        Ok(RouteMechanism::Bridge)
    } else if text_is(s, "burn_mint") {
        Ok(RouteMechanism::BurnMint)
    } else if text_is(s, "unknown") {
        Ok(RouteMechanism::Unknown)
    } else {
        Ok(RouteMechanism::Other(s.clone()))
    }
}

/// `r` is the value `named` when there is one, else the validation error `message`.
pub open spec fn parsed_as<T>(r: Result<T, ProjectError>, named: Option<T>, message: Seq<char>) -> bool {
    match named {
        Some(v) => r == Ok::<T, ProjectError>(v),
        None => invalid(r, message),
    }
}

pub open spec fn attribution_named(s: Seq<char>) -> Option<AttributionMethod> {
    if s == "fixture"@ {
        Some(AttributionMethod::Fixture)
    } else if s == "mint_pair_swaps"@ {
        Some(AttributionMethod::MintPairSwaps)
    } else {
        None
    }
}

pub open spec fn attribution_problem(s: Seq<char>) -> Seq<char> {
    "unrecognized measurement.attribution '"@ + s + "' (expected fixture|mint_pair_swaps)"@
}

pub fn parse_attribution(s: &String) -> (r: Result<AttributionMethod, ProjectError>)
    ensures
        parsed_as(r, attribution_named(s@), attribution_problem(s@)),
{
    if text_is(s, "fixture") {
        Ok(AttributionMethod::Fixture)
    } else if text_is(s, "mint_pair_swaps") {
        Ok(AttributionMethod::MintPairSwaps)
    } else {
        validation(
            String::from_str("unrecognized measurement.attribution '").concat(s.as_str()).concat(
                "' (expected fixture|mint_pair_swaps)",
            ),
        )
    }
}

pub open spec fn doc_status_named(s: Seq<char>) -> Option<DocStatus> {
    if s == "issuer_named"@ {
        Some(DocStatus::IssuerNamed)
    } else if s == "docs_mentioned"@ {
        Some(DocStatus::DocsMentioned)
    } else if s == "none"@ {
        Some(DocStatus::Undocumented)
    } else if s == "unknown"@ {
        Some(DocStatus::Unknown)
    } else {
        None
    }
}

pub open spec fn doc_status_problem(s: Seq<char>) -> Seq<char> {
    unrecognized_message("route_evidence.documented"@, s)
}

pub fn parse_doc(s: &String) -> (r: Result<DocStatus, ProjectError>)
    ensures
        parsed_as(r, doc_status_named(s@), doc_status_problem(s@)),
{
    if text_is(s, "issuer_named") {
        Ok(DocStatus::IssuerNamed)
    } else if text_is(s, "docs_mentioned") {
        Ok(DocStatus::DocsMentioned)
    } else if text_is(s, "none") {
        Ok(DocStatus::Undocumented)
    } else if text_is(s, "unknown") {
        Ok(DocStatus::Unknown)
    } else {
        validation(unrecognized("route_evidence.documented", s))
    }
}

pub open spec fn exec_status_named(s: Seq<char>) -> Option<ExecStatus> {
    if s == "permissionless"@ {
        Some(ExecStatus::Permissionless)
    } else if s == "gated"@ {
        Some(ExecStatus::Gated)
    } else if s == "unknown"@ {
        Some(ExecStatus::Unknown)
    } else {
        None
    }
}

pub open spec fn exec_status_problem(s: Seq<char>) -> Seq<char> {
    unrecognized_message("route_evidence.technically_executable"@, s)
}

pub fn parse_exec(s: &String) -> (r: Result<ExecStatus, ProjectError>)
    ensures
        parsed_as(r, exec_status_named(s@), exec_status_problem(s@)),
{
    if text_is(s, "permissionless") {
        Ok(ExecStatus::Permissionless)
    } else if text_is(s, "gated") {
        Ok(ExecStatus::Gated)
    } else if text_is(s, "unknown") {
        Ok(ExecStatus::Unknown)
    } else {
        validation(unrecognized("route_evidence.technically_executable", s))
    }
}

pub open spec fn observed_status_named(s: Seq<char>) -> Option<ObservedStatus> {
    if s == "yes"@ {
        Some(ObservedStatus::Yes)
    } else if s == "no_in_window"@ {
        Some(ObservedStatus::NoInWindow)
    } else if s == "unknown"@ {
        Some(ObservedStatus::Unknown)
    } else {
        None
    }
}

pub open spec fn observed_status_problem(s: Seq<char>) -> Seq<char> {
    unrecognized_message("route_evidence.observed_on_chain"@, s) + " (use no_in_window, not 'no')"@
}

pub fn parse_observed(s: &String) -> (r: Result<ObservedStatus, ProjectError>)
    ensures
        parsed_as(r, observed_status_named(s@), observed_status_problem(s@)),
{
    if text_is(s, "yes") {
        Ok(ObservedStatus::Yes)
    } else if text_is(s, "no_in_window") {
        Ok(ObservedStatus::NoInWindow)
    } else if text_is(s, "unknown") {
        Ok(ObservedStatus::Unknown)
    } else {
        validation(
            unrecognized("route_evidence.observed_on_chain", s).concat(
                " (use no_in_window, not 'no')",
            ),
        )
    }
}

pub open spec fn linkage_named(s: Seq<char>) -> Option<LinkageClass> {
    if s == "direct_same_tx"@ {
        Some(LinkageClass::DirectSameTx)
    } else if s == "mint_pair_match"@ {
        Some(LinkageClass::MintPairMatch)
    } else if s == "issuer_two_leg"@ {
        Some(LinkageClass::IssuerTwoLeg)
    } else if s == "unlinked"@ {
        Some(LinkageClass::Unlinked)
    } else if s == "unknown"@ {
        Some(LinkageClass::Unknown)
    } else {
        None
    }
}

pub open spec fn linkage_problem(s: Seq<char>) -> Seq<char> {
    unrecognized_message("route_evidence.linkage_class"@, s)
}

pub fn parse_linkage(s: &String) -> (r: Result<LinkageClass, ProjectError>)
    ensures
        parsed_as(r, linkage_named(s@), linkage_problem(s@)),
{
    if text_is(s, "direct_same_tx") {
        Ok(LinkageClass::DirectSameTx)
    } else if text_is(s, "mint_pair_match") {
        Ok(LinkageClass::MintPairMatch)
    } else if text_is(s, "issuer_two_leg") {
        Ok(LinkageClass::IssuerTwoLeg)
    } else if text_is(s, "unlinked") {
        Ok(LinkageClass::Unlinked)
    } else if text_is(s, "unknown") {
        Ok(LinkageClass::Unknown)
    } else {
        validation(unrecognized("route_evidence.linkage_class", s))
    }
}

pub open spec fn restriction_named(s: Seq<char>, r: Restriction) -> bool {
    if s == "kyc"@ {
        r == Restriction::Kyc
    } else if s == "min_size"@ {
        r == Restriction::MinSize
    } else if s == "jurisdiction"@ {
        r == Restriction::Jurisdiction
    } else if s == "deadline"@ {
        r == Restriction::Deadline
    } else if s == "whitelist"@ {
        r == Restriction::Whitelist
    } else {
        r matches Restriction::Other(o) && o@ == s
    }
}

pub fn parse_restriction(s: &String) -> (r: Restriction)
    ensures
        restriction_named(s@, r),
{
    if text_is(s, "kyc") {
        Restriction::Kyc
    } else if text_is(s, "min_size") {
        Restriction::MinSize
    } else if text_is(s, "jurisdiction") {
        Restriction::Jurisdiction
    } else if text_is(s, "deadline") {
        Restriction::Deadline
    } else if text_is(s, "whitelist") {
        Restriction::Whitelist
    } else {
        Restriction::Other(s.clone())
    }
}

pub open spec fn control_relation_named(s: Seq<char>, r: ControlRelation) -> bool {
    if s == "same_issuer_different_underlying"@ {
        r == ControlRelation::SameIssuerDifferentUnderlying
    } else if s == "same_underlying_different_issuer"@ {
        r == ControlRelation::SameUnderlyingDifferentIssuer
    } else if s == "same_chain_venue"@ {
        r == ControlRelation::SameChainVenue
    } else if s == "similar_wrapper_type"@ {
        r == ControlRelation::SimilarWrapperType
    } else if s == "unaffected"@ {
        r == ControlRelation::Unaffected
    } else {
        r matches ControlRelation::Other(o) && o@ == s
    }
}

pub fn parse_control_relation(s: &String) -> (r: ControlRelation)
    ensures
        control_relation_named(s@, r),
{
    if text_is(s, "same_issuer_different_underlying") {
        ControlRelation::SameIssuerDifferentUnderlying
    } else if text_is(s, "same_underlying_different_issuer") {
        ControlRelation::SameUnderlyingDifferentIssuer
    } else if text_is(s, "same_chain_venue") {
        ControlRelation::SameChainVenue
    } else if text_is(s, "similar_wrapper_type") {
        ControlRelation::SimilarWrapperType
    } else if text_is(s, "unaffected") {
        ControlRelation::Unaffected
    } else {
        ControlRelation::Other(s.clone())
    }
}

pub open spec fn missing_kind_named(s: Seq<char>, k: MissingKind) -> bool {
    if s == "off_chain_venue"@ {
        k == MissingKind::OffChainVenue
    } else if s == "historical_depth"@ {
        k == MissingKind::HistoricalDepth
    } else if s == "route_attribution"@ {
        k == MissingKind::RouteAttribution
    } else if s == "supply"@ {
        k == MissingKind::Supply
    } else if s == "trader_intent"@ {
        k == MissingKind::TraderIntent
    } else if s == "actor_linkage"@ {
        k == MissingKind::ActorLinkage
    } else if s == "price"@ {
        k == MissingKind::Price
    } else {
        k matches MissingKind::Other(o) && o@ == s
    }
}

pub fn parse_missing_kind(s: &String) -> (r: MissingKind)
    ensures
        missing_kind_named(s@, r),
{
    if text_is(s, "off_chain_venue") {
        MissingKind::OffChainVenue
    } else if text_is(s, "historical_depth") {
        MissingKind::HistoricalDepth
    } else if text_is(s, "route_attribution") {
        MissingKind::RouteAttribution
    } else if text_is(s, "supply") {
        MissingKind::Supply
    } else if text_is(s, "trader_intent") {
        MissingKind::TraderIntent
    } else if text_is(s, "actor_linkage") {
        MissingKind::ActorLinkage
    } else if text_is(s, "price") {
        MissingKind::Price
    } else {
        MissingKind::Other(s.clone())
    }
}

pub open spec fn window_use_named(s: Seq<char>) -> Option<WindowUse> {
    if s == "response"@ {
        Some(WindowUse::Response)
    } else if s == "flow"@ {
        Some(WindowUse::Flow)
    } else {
        None
    }
}

pub open spec fn window_use_problem(s: Seq<char>) -> Seq<char> {
    unrecognized_message("windows.applies_to"@, s) + " (expected response|flow)"@
}

/// Parses a window use: `response` or `flow`.
pub fn parse_window_use(s: &String) -> (r: Result<WindowUse, ProjectError>)
    ensures
        parsed_as(r, window_use_named(s@), window_use_problem(s@)),
{
    if text_is(s, "response") {
        Ok(WindowUse::Response)
    } else if text_is(s, "flow") {
        Ok(WindowUse::Flow)
    } else {
        validation(unrecognized("windows.applies_to", s).concat(" (expected response|flow)"))
    }
}

pub open spec fn session_calendar_named(s: Seq<char>) -> Option<SessionCalendar> {
    if s == "continuous"@ {
        Some(SessionCalendar::Continuous)
    } else if s == "exchange_sessions"@ {
        Some(SessionCalendar::ExchangeSessions)
    } else {
        None
    }
}

pub open spec fn session_calendar_problem(s: Seq<char>) -> Seq<char> {
    unrecognized_message("assets.session_calendar"@, s) + " (expected continuous|exchange_sessions)"@
}

/// Parses a session calendar: `continuous` or `exchange_sessions`.
pub fn parse_session_calendar(s: &String) -> (r: Result<SessionCalendar, ProjectError>)
    ensures
        parsed_as(r, session_calendar_named(s@), session_calendar_problem(s@)),
{
    if text_is(s, "continuous") {
        Ok(SessionCalendar::Continuous)
    } else if text_is(s, "exchange_sessions") {
        Ok(SessionCalendar::ExchangeSessions)
    } else {
        validation(
            unrecognized("assets.session_calendar", s).concat(
                " (expected continuous|exchange_sessions)",
            ),
        )
    }
}

} // verus!
