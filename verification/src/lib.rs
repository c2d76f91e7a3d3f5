//! Shocktrace: deterministic measurement of market responses and directional flows.
//!
//! The library measures empirical objects. It does not infer migration from
//! coincident activity changes.
pub mod dec;
pub mod day;
pub mod identity;
pub mod control;
pub mod evidence;
pub mod coverage;
pub mod event;
pub mod sort;
pub mod route;
pub mod flow;
pub mod measure;
pub mod response;
pub mod ingest;
pub mod text;
pub mod scan;
pub mod order;
pub mod project;
pub mod report;
pub mod provenance;
pub mod fetch;
pub mod observe;

pub use control::{ControlAsset, ControlRelation};
pub use coverage::{CoverageGap, EvidenceBoundary, GapSource, MissingKind};
pub use event::{default_window_applies_to, Event, EventWindow, WindowUse};
pub use evidence::EvidenceSection;
pub use flow::{
    account_directional_flows, AttributionMethod, DirectionalFlowObservation, FlowSeriesSummary,
    FlowUnit, Quantity,
};
pub use identity::{AssetId, AssetKey, AssetLocator, CanonicalAsset, ChainId, ProductKind, VenueId};
pub use measure::daily::{daily_returns, DailyReturn, MeasureError};
pub use project::validate::{build_project, validate_project};
pub use project::{DataProvenanceMeta, ProjectConfig, ProjectError, ResponseConfig};
pub use provenance::{hash_bytes, InputHash, ProvenanceRecord};
pub use report::render::{
    flows_view, format_flows_summary, format_respond_summary, format_summary, ladder_status,
    respond_view, LadderRow, SectionView,
};
pub use report::{analyze_project, AnalysisResult, FLOW_METRIC_ID, RESPONSE_METRIC_ID};
pub use response::{account_market_response, ResponseObservation, ResponseSeriesSummary};
pub use route::{
    DenominatorPolicy, DocStatus, ExecStatus, FlowUnitConfig, LinkageClass, MeasuredLeg,
    ObservedStatus, Restriction, Route, RouteEvidence, RouteMeasurement, RouteMechanism,
};
