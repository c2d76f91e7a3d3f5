use shocktrace::day::Day;
use shocktrace::flow::AttributionMethod;
use shocktrace::identity::AssetKey;
use shocktrace::project::{
    parse_observed, ProjectConfig, RawAsset, RawControl, RawDenominator, RawEvent, RawInputs,
    RawLocator, RawMeasurement, RawProject, RawRoute, RawRouteEvidence, RawWindow,
};
use shocktrace::route::{DenominatorPolicy, MeasuredLeg};
use shocktrace::{build_project, validate_project};

fn asset(key: &str, mint: &str, symbol: &str) -> RawAsset {
    RawAsset {
        key: key.into(),
        chain: "solana".into(),
        locator: RawLocator::Mint { mint: mint.into() },
        display_symbol: symbol.into(),
        issuer: None,
        product_kind: "unknown".into(),
        underlying_ref: None,
        role: None,
        session_calendar: None,
    }
}

fn synthetic_raw() -> RawProject {
    RawProject {
        schema_version: 3,
        project_id: "synthetic_conduit".into(),
        name: "Synthetic conduit".into(),
        event: RawEvent { id: "e".into(), name: "e".into(), timestamp: 1781272800 },
        windows: vec![RawWindow {
            name: "post_event".into(),
            start: Day::parse("2026-06-12").unwrap(),
            end: Day::parse("2026-06-18").unwrap(),
            applies_to: None,
        }],
        assets: vec![
            asset("A", "MintA111111111111111111111111111111111111", "AAA"),
            asset("B", "MintB111111111111111111111111111111111111", "BBB"),
            asset("C", "MintC111111111111111111111111111111111111", "CCC"),
        ],
        routes: vec![RawRoute {
            id: "a_b_swap".into(),
            source: "A".into(),
            destination: "B".into(),
            mechanism: "swap_pair".into(),
            measurement: RawMeasurement {
                unit: "token_native".into(),
                unit_asset: "A".into(),
                measured_leg: "source".into(),
                attribution: "fixture".into(),
                denominator: None,
            },
        }],
        route_evidence: vec![RawRouteEvidence {
            route_id: "a_b_swap".into(),
            documented: "issuer_named".into(),
            technically_executable: "permissionless".into(),
            observed_on_chain: "yes".into(),
            restrictions: vec![],
            linkage_class: "mint_pair_match".into(),
            notes: None,
        }],
        has_global_flow: false,
        controls: vec![RawControl { key: "C".into(), relation: "unaffected".into() }],
        coverage_declared: vec![],
        inputs: RawInputs {
            flows: Some("data/flows_daily.csv".into()),
            supply: Some("data/supply_daily.csv".into()),
            response: None,
            references: None,
        },
        response: None,
        data_provenance: None,
    }
}

fn synthetic() -> ProjectConfig {
    build_project(&synthetic_raw()).unwrap()
}

fn snapshot(asset: &str) -> Option<DenominatorPolicy> {
    Some(DenominatorPolicy::SupplySnapshot {
        asset: AssetKey::new(asset),
        as_of: Day::parse("2026-06-11").unwrap(),
    })
}

fn error_text(cfg: &ProjectConfig) -> String {
    validate_project(cfg).unwrap_err().message()
}

#[test]
fn loads_and_validates_synthetic_project() {
    let cfg = synthetic();
    assert_eq!(cfg.project_id, "synthetic_conduit");
    assert_eq!(cfg.schema_version, 3);
    assert_eq!(cfg.assets.len(), 3);
    assert_eq!(cfg.routes.len(), 1);
    assert_eq!(cfg.routes[0].measurement.attribution, AttributionMethod::Fixture);
    assert_eq!(cfg.routes[0].measurement.measured_leg, MeasuredLeg::Source);
}

#[test]
fn shared_display_symbol_different_locator_ok() {
    let mut cfg = synthetic();
    cfg.assets[1].display_symbol = cfg.assets[0].display_symbol.clone();
    validate_project(&cfg).unwrap();
}

#[test]
fn rejects_denominator_asset_mismatch() {
    let mut cfg = synthetic();
    cfg.routes[0].measurement.denominator = snapshot("B");
    assert!(error_text(&cfg).contains("must equal measurement.unit_asset"));
}

#[test]
fn rejects_unit_asset_not_equal_measured_leg() {
    let mut cfg = synthetic();
    cfg.routes[0].measurement.unit_asset = AssetKey::new("B");
    cfg.routes[0].measurement.denominator = snapshot("B");
    assert!(error_text(&cfg).contains("must equal measured_leg asset"));
}

#[test]
fn rejects_unrecognized_observed_status() {
    let err = parse_observed(&"no".to_string()).unwrap_err();
    assert!(err.message().contains("observed_on_chain"));
}

#[test]
fn rejects_dangling_route_evidence() {
    let mut cfg = synthetic();
    cfg.route_evidence[0].route_id = "missing_route".into();
    assert!(error_text(&cfg).contains("unknown route"));
}

#[test]
fn rejects_self_referential_route() {
    let mut cfg = synthetic();
    cfg.routes[0].destination = cfg.routes[0].source.clone();
    assert!(error_text(&cfg).contains("identical"));
}

#[test]
fn rejects_window_end_before_start() {
    let mut cfg = synthetic();
    cfg.windows[0].end = Day::from_number(cfg.windows[0].start.number() - 1).unwrap();
    assert!(error_text(&cfg).contains("before start"));
}

#[test]
fn rejects_undeclared_control_key() {
    let mut cfg = synthetic();
    cfg.controls[0].key = AssetKey::new("Z_MISSING");
    assert!(error_text(&cfg).contains("control key"));
}

#[test]
fn rejects_undeclared_unit_asset() {
    let mut cfg = synthetic();
    cfg.routes[0].measurement.unit_asset = AssetKey::new("Z_MISSING");
    assert!(error_text(&cfg).contains("unit_asset"));
}

#[test]
fn rejects_other_schema_versions() {
    let mut raw = synthetic_raw();
    raw.schema_version = 2;
    let err = build_project(&raw).unwrap_err();
    assert!(err.message().starts_with("unsupported schema_version 2"));
}

#[test]
fn rejects_global_flow_table() {
    let mut raw = synthetic_raw();
    raw.has_global_flow = true;
    assert!(build_project(&raw).unwrap_err().message().contains("global [flow] was removed"));
}

#[test]
fn rejects_unknown_measurement_unit_while_mapping() {
    let mut raw = synthetic_raw();
    raw.routes[0].measurement.unit = "barrels".into();
    assert_eq!(
        build_project(&raw).unwrap_err().message(),
        "validation failed: unknown measurement.unit 'barrels'"
    );
}

#[test]
fn rejects_duplicate_asset_key_and_identity() {
    let mut cfg = synthetic();
    cfg.assets[1].key = AssetKey::new("A");
    assert_eq!(error_text(&cfg), "validation failed: duplicate asset key 'A'");
    let mut cfg = synthetic();
    cfg.assets[1].id = cfg.assets[0].id.clone();
    assert!(error_text(&cfg).contains("locator collision"));
}

#[test]
fn rejects_denominator_without_supply_input() {
    let mut cfg = synthetic();
    cfg.routes[0].measurement.denominator = snapshot("A");
    cfg.inputs.supply = None;
    assert_eq!(
        error_text(&cfg),
        "validation failed: at least one route denominator requires inputs.supply"
    );
}

#[test]
fn validation_does_not_check_the_baseline_window() {
    let mut raw = synthetic_raw();
    raw.response = Some(shocktrace::project::ResponseConfig { baseline_window: "nope".into() });
    assert!(build_project(&raw).is_ok());
}

#[test]
fn omitted_applies_to_defaults_to_both_sections() {
    let cfg = synthetic();
    assert!(cfg.windows[0].applies_to_response());
    assert!(cfg.windows[0].applies_to_flow());
}
