use shocktrace::coverage::{GapSource, MissingKind};
use shocktrace::day::Day;
use shocktrace::dec::Dec;
use shocktrace::evidence::EvidenceSection;
use shocktrace::ingest::daily_flows::{parse_flow_rows, DailyFlowRow};
use shocktrace::ingest::daily_response::{parse_response_rows, DailyResponseRow};
use shocktrace::ingest::daily_supply::{parse_supply_rows, DailySupplyRow};
use shocktrace::project::{
    ProjectConfig, RawAsset, RawCoverage, RawDenominator, RawEvent, RawInputs, RawLocator,
    RawMeasurement, RawProject, RawRoute, RawRouteEvidence, RawWindow, ResponseConfig,
};
use shocktrace::flow::FlowError;
use shocktrace::report::{build_provenance, provenance_inputs, AnalysisInputs, AnalyzeError};
use shocktrace::response::ResponseError;
use shocktrace::{analyze_project, build_project, format_flows_summary, format_respond_summary, ladder_status, AnalysisResult};

fn window(name: &str, start: &str, end: &str) -> RawWindow {
    RawWindow {
        name: name.into(),
        start: Day::parse(start).unwrap(),
        end: Day::parse(end).unwrap(),
        applies_to: None,
    }
}

fn mint_asset(key: &str) -> RawAsset {
    RawAsset {
        key: key.into(),
        chain: "solana".into(),
        locator: RawLocator::Mint { mint: format!("Mint{key}111111111111111111111111111111111111") },
        display_symbol: format!("{key}{key}{key}"),
        issuer: None,
        product_kind: "unknown".into(),
        underlying_ref: None,
        role: None,
        session_calendar: None,
    }
}

fn market_asset(key: &str) -> RawAsset {
    RawAsset {
        key: key.into(),
        chain: "tradfi".into(),
        locator: RawLocator::Market { venue: "COMEX".into(), instrument_id: "GC_FRONT_SYNTH".into() },
        display_symbol: key.into(),
        issuer: None,
        product_kind: "unknown".into(),
        underlying_ref: Some("gold".into()),
        role: None,
        session_calendar: None,
    }
}

fn base(project_id: &str) -> RawProject {
    RawProject {
        schema_version: 3,
        project_id: project_id.into(),
        name: project_id.into(),
        event: RawEvent { id: "e".into(), name: "e".into(), timestamp: 1781272800 },
        windows: vec![],
        assets: vec![],
        routes: vec![],
        route_evidence: vec![],
        has_global_flow: false,
        controls: vec![],
        coverage_declared: vec![],
        inputs: RawInputs { flows: None, supply: None, response: None, references: None },
        response: None,
        data_provenance: None,
    }
}

fn route(id: &str, source: &str, denom: &str) -> RawRoute {
    RawRoute {
        id: id.into(),
        source: source.into(),
        destination: "B".into(),
        mechanism: "swap_pair".into(),
        measurement: RawMeasurement {
            unit: "token_native".into(),
            unit_asset: source.into(),
            measured_leg: "source".into(),
            attribution: "fixture".into(),
            denominator: Some(RawDenominator {
                kind: "supply_snapshot".into(),
                asset: denom.into(),
                as_of: Day::parse("2026-06-11").unwrap(),
            }),
        },
    }
}

fn linked(post_start: &str, post_end: &str) -> RawProject {
    let mut raw = base("tmp");
    raw.windows = vec![window("post_event", post_start, post_end)];
    raw.assets = vec![mint_asset("A"), mint_asset("B")];
    raw.routes = vec![route("a_b_swap", "A", "A")];
    raw.route_evidence = vec![RawRouteEvidence {
        route_id: "a_b_swap".into(),
        documented: "issuer_named".into(),
        technically_executable: "permissionless".into(),
        observed_on_chain: "yes".into(),
        restrictions: vec![],
        linkage_class: "mint_pair_match".into(),
        notes: None,
    }];
    raw.inputs.flows = Some("data/flows_daily.csv".into());
    raw.inputs.supply = Some("data/supply_daily.csv".into());
    raw
}

fn flows(rows: &[(&str, &str, &str, &str)]) -> Vec<DailyFlowRow> {
    rows.iter()
        .map(|(r, d, a, b)| DailyFlowRow {
            route_id: r.to_string(),
            day: d.to_string(),
            gross_a_to_b: a.to_string(),
            gross_b_to_a: b.to_string(),
        })
        .collect()
}

fn supply(rows: &[(&str, &str, &str)]) -> Vec<DailySupplyRow> {
    rows.iter()
        .map(|(k, d, s)| DailySupplyRow { asset_key: k.to_string(), day: d.to_string(), supply: s.to_string() })
        .collect()
}

fn responses(rows: &[(&str, &str, &str, &str)]) -> Vec<DailyResponseRow> {
    rows.iter()
        .map(|(k, d, p, v)| DailyResponseRow {
            asset_key: k.to_string(),
            day: d.to_string(),
            price: Some(p.to_string()),
            volume: Some(v.to_string()),
        })
        .collect()
}

fn analyze(
    cfg: &ProjectConfig,
    response_rows: Vec<DailyResponseRow>,
    flow_rows: Vec<DailyFlowRow>,
    supply_rows: Option<Vec<DailySupplyRow>>,
) -> AnalysisResult {
    let path = String::from("data/x.csv");
    let inputs = AnalysisInputs {
        response_rows: parse_response_rows(&response_rows, &path).unwrap(),
        flow_rows: parse_flow_rows(&flow_rows, &path).unwrap(),
        supply_rows: supply_rows.map(|s| parse_supply_rows(&s, &path).unwrap()),
    };
    let n = provenance_inputs(cfg).len();
    let bytes: Vec<Vec<u8>> = (0..n).map(|_| b"x".to_vec()).collect();
    let provenance = build_provenance(cfg, "test", b"config", &bytes, 0);
    analyze_project(cfg, &inputs, provenance).unwrap()
}

fn gold_like(project_id: &str) -> RawProject {
    let mut raw = base(project_id);
    raw.windows = vec![window("baseline", "2026-06-01", "2026-06-03"), window("event", "2026-06-12", "2026-06-14")];
    raw.assets = vec![market_asset("GC")];
    raw.response = Some(ResponseConfig { baseline_window: "baseline".into() });
    raw.inputs.response = Some("data/response_daily.csv".into());
    raw
}

#[test]
fn response_only_project_analyzes_without_zero_flow() {
    let cfg = build_project(&gold_like("gold_fixture")).unwrap();
    let rows = responses(&[
        ("GC", "2026-06-01", "100", "10"),
        ("GC", "2026-06-02", "101", "10"),
        ("GC", "2026-06-03", "102", "10"),
        ("GC", "2026-06-12", "110", "40"),
        ("GC", "2026-06-13", "115", "50"),
        ("GC", "2026-06-14", "121", "30"),
    ]);
    let result = analyze(&cfg, rows, vec![], None);
    assert!(matches!(result.market_response, EvidenceSection::Available { .. }));
    assert!(matches!(result.route_evidence, EvidenceSection::NotDeclared { .. }));
    assert!(matches!(result.directional_flow, EvidenceSection::NotDeclared { .. }));
    if let EvidenceSection::NotDeclared { reason } = &result.directional_flow {
        assert!(reason.contains("not zero"));
    }
    let row = ladder_status(&result);
    assert_eq!(row.market_response, "observed");
    assert_eq!(row.directional_flow, "not_declared");
    assert_eq!(row.claim_boundary, "response only; directional flow not identified");
}

#[test]
fn multi_route_independent_units_and_denominators() {
    let mut raw = base("multi");
    raw.windows = vec![window("post_event", "2026-06-12", "2026-06-12")];
    raw.assets = vec![mint_asset("A"), mint_asset("B"), mint_asset("C")];
    raw.routes = vec![route("a_b_swap", "A", "A"), route("c_b_swap", "C", "C")];
    raw.inputs.flows = Some("data/flows_daily.csv".into());
    raw.inputs.supply = Some("data/supply_daily.csv".into());
    let cfg = build_project(&raw).unwrap();
    let result = analyze(
        &cfg,
        vec![],
        flows(&[("a_b_swap", "2026-06-12", "50.0", "20.0"), ("c_b_swap", "2026-06-12", "100.0", "60.0")]),
        Some(supply(&[("A", "2026-06-11", "1000.0"), ("C", "2026-06-11", "500.0")])),
    );
    let EvidenceSection::Available { data } = &result.directional_flow else {
        panic!("expected available flow");
    };
    let ab = data.iter().find(|s| s.route_id == "a_b_swap").unwrap();
    let cb = data.iter().find(|s| s.route_id == "c_b_swap").unwrap();
    assert_eq!(ab.net_total, Dec::from_int(30));
    assert_eq!(ab.net_over_denominator.unwrap(), Dec::parse("0.03").unwrap());
    assert_eq!(cb.net_total, Dec::from_int(40));
    assert_eq!(cb.net_over_denominator.unwrap(), Dec::parse("0.08").unwrap());
}

#[test]
fn partial_window_coverage_emits_gap() {
    let cfg = build_project(&linked("2026-06-12", "2026-06-18")).unwrap();
    let result = analyze(
        &cfg,
        vec![],
        flows(&[("a_b_swap", "2026-06-12", "100.0", "20.0"), ("a_b_swap", "2026-06-13", "10.0", "0.0")]),
        Some(supply(&[("A", "2026-06-11", "1000.0")])),
    );
    assert!(result
        .boundary
        .missing
        .iter()
        .any(|g| g.scope == "a_b_swap@post_event" && g.reason.contains("5 of 7 days missing")));
    let text = format_flows_summary(&result);
    assert!(text.contains("evidence boundary:"));
    assert!(text.contains("5 of 7 days missing"));
    assert!(text.contains("observed/window=2/7"));
    assert!(!text.contains("Some("));
}

#[test]
fn out_of_window_observations_emit_gap_and_exclude_from_totals() {
    let cfg = build_project(&linked("2026-06-12", "2026-06-18")).unwrap();
    let result = analyze(
        &cfg,
        vec![],
        flows(&[
            ("a_b_swap", "2019-01-01", "1000.0", "0.0"),
            ("a_b_swap", "2031-12-31", "800.0", "20.0"),
            ("a_b_swap", "2026-06-12", "10.0", "1.0"),
        ]),
        Some(supply(&[("A", "2026-06-11", "1000.0")])),
    );
    let EvidenceSection::Available { data } = &result.directional_flow else {
        panic!("expected available flow");
    };
    let post = data.iter().find(|s| s.window_name == "post_event").unwrap();
    assert_eq!(post.observed_days, 1);
    assert_eq!(post.net_total, Dec::from_int(9));
    let gap = result
        .boundary
        .missing
        .iter()
        .find(|g| g.scope == "a_b_swap" && g.reason.contains("outside all declared windows"))
        .unwrap();
    assert_eq!(
        gap.reason,
        "2 observation day(s) outside all declared windows (e.g. 2019-01-01, 2031-12-31)"
    );
}

#[test]
fn undeclared_response_assets_deduped_in_boundary() {
    let mut raw = gold_like("dedupe");
    raw.windows = vec![window("baseline", "2026-06-01", "2026-06-02"), window("event", "2026-06-12", "2026-06-12")];
    let cfg = build_project(&raw).unwrap();
    let rows = responses(&[
        ("GC", "2026-06-01", "100", "10"),
        ("GC", "2026-06-02", "101", "10"),
        ("GC", "2026-06-12", "110", "40"),
        ("XX_GHOST", "2026-06-12", "1", "1"),
        ("XX_GHOST", "2026-06-13", "2", "2"),
    ]);
    let result = analyze(&cfg, rows, vec![], None);
    let ghosts: Vec<_> = result.boundary.missing.iter().filter(|g| g.scope == "XX_GHOST").collect();
    assert_eq!(ghosts.len(), 1);
    let text = format_respond_summary(&result);
    assert!(text.contains("evidence boundary:"));
    assert!(text.contains("undeclared_response_asset/XX_GHOST"));
    assert!(!text.contains("Some("));
    assert!(!text.contains("Other("));
}

#[test]
fn respond_summary_keeps_author_declared_caveats() {
    let mut raw = gold_like("gold_fixture");
    raw.coverage_declared = vec![
        RawCoverage { kind: "trader_intent".into(), scope: "GC".into(), reason: "no trader identity".into() },
        RawCoverage {
            kind: "route_attribution".into(),
            scope: "gold_fixture".into(),
            reason: "no on-chain route for a futures contract".into(),
        },
    ];
    let cfg = build_project(&raw).unwrap();
    let rows = responses(&[("GC", "2026-06-01", "100", "10"), ("GC", "2026-06-12", "110", "40")]);
    let result = analyze(&cfg, rows, vec![], None);
    let text = format_respond_summary(&result);
    assert!(text.contains("trader_intent/GC"), "got:\n{text}");
    assert!(text.contains("route_attribution/gold_fixture"), "got:\n{text}");
    assert!(result
        .boundary
        .missing
        .iter()
        .any(|g| g.source == GapSource::Declared && matches!(g.kind, MissingKind::TraderIntent)));
}

#[test]
fn missing_supply_snapshot_is_a_supply_gap_not_a_zero() {
    let cfg = build_project(&linked("2026-06-12", "2026-06-12")).unwrap();
    let result = analyze(
        &cfg,
        vec![],
        flows(&[("a_b_swap", "2026-06-12", "10.0", "1.0")]),
        Some(supply(&[("B", "2026-06-11", "1000.0")])),
    );
    let EvidenceSection::Available { data } = &result.directional_flow else {
        panic!("expected available flow");
    };
    assert!(data[0].net_over_denominator.is_none());
    let gap = result.boundary.missing.iter().find(|g| g.kind == MissingKind::Supply).unwrap();
    assert_eq!(gap.scope, "a_b_swap:A");
    assert_eq!(gap.reason, "no supply row for asset 'A' on 2026-06-11");
}

#[test]
fn rows_of_undeclared_routes_are_recorded_once() {
    let cfg = build_project(&linked("2026-06-12", "2026-06-12")).unwrap();
    let result = analyze(
        &cfg,
        vec![],
        flows(&[
            ("a_b_swap", "2026-06-12", "10.0", "1.0"),
            ("z_route", "2026-06-12", "1.0", "1.0"),
            ("z_route", "2026-06-13", "1.0", "1.0"),
        ]),
        Some(supply(&[("A", "2026-06-11", "1000.0")])),
    );
    let extra: Vec<_> = result.boundary.missing.iter().filter(|g| g.scope == "z_route").collect();
    assert_eq!(extra.len(), 1);
    assert_eq!(extra[0].reason, "flow observations reference a route_id not declared in project.toml");
}

#[test]
fn baseline_window_summary_carries_no_self_normalized_volume() {
    let cfg = build_project(&gold_like("gold_baseline")).unwrap();
    let rows = responses(&[
        ("GC", "2026-06-01", "100", "10"),
        ("GC", "2026-06-02", "101", "20"),
        ("GC", "2026-06-03", "102", "30"),
        ("GC", "2026-06-12", "110", "40"),
        ("GC", "2026-06-13", "115", "50"),
        ("GC", "2026-06-14", "121", "60"),
    ]);
    let result = analyze(&cfg, rows, vec![], None);
    let EvidenceSection::Available { data } = &result.market_response else { panic!("market response not available") };
    assert_eq!(data.len(), 2);
    let baseline = data.iter().find(|s| s.window_name == "baseline").unwrap();
    assert_eq!(baseline.baseline_normalized_volume, None);
    assert_eq!(baseline.window_median_volume, Some(Dec::parse("20").unwrap()));
    let event = data.iter().find(|s| s.window_name == "event").unwrap();
    assert_eq!(event.baseline_normalized_volume, Some(Dec::parse("2.5").unwrap()));
}

fn try_analyze(
    cfg: &ProjectConfig,
    response_rows: Vec<DailyResponseRow>,
    flow_rows: Vec<DailyFlowRow>,
    supply_rows: Option<Vec<DailySupplyRow>>,
) -> Result<AnalysisResult, AnalyzeError> {
    let path = String::from("data/x.csv");
    let inputs = AnalysisInputs {
        response_rows: parse_response_rows(&response_rows, &path).unwrap(),
        flow_rows: parse_flow_rows(&flow_rows, &path).unwrap(),
        supply_rows: supply_rows.map(|s| parse_supply_rows(&s, &path).unwrap()),
    };
    let provenance = build_provenance(cfg, "test", b"config", &vec![b"x".to_vec(); provenance_inputs(cfg).len()], 0);
    analyze_project(cfg, &inputs, provenance)
}

#[test]
fn repeated_response_day_fails_the_analysis_with_that_day() {
    let cfg = build_project(&gold_like("gold_fixture")).unwrap();
    let rows = responses(&[
        ("GC", "2026-06-01", "100", "10"),
        ("GC", "2026-06-12", "110", "40"),
        ("GC", "2026-06-13", "115", "50"),
        ("GC", "2026-06-13", "116", "50"),
    ]);
    let err = try_analyze(&cfg, rows, vec![], None).unwrap_err();
    assert_eq!(
        err,
        AnalyzeError::Response(ResponseError::DuplicateObservation {
            asset: "GC".into(),
            day: Day::parse("2026-06-13").unwrap(),
        })
    );
}

#[test]
fn repeated_flow_day_fails_the_analysis_with_that_day() {
    let cfg = build_project(&linked("2026-06-12", "2026-06-14")).unwrap();
    let err = try_analyze(
        &cfg,
        vec![],
        flows(&[
            ("a_b_swap", "2026-06-12", "10.0", "1.0"),
            ("a_b_swap", "2026-06-13", "10.0", "1.0"),
            ("a_b_swap", "2026-06-13", "3.0", "1.0"),
        ]),
        Some(supply(&[("A", "2026-06-11", "1000.0")])),
    )
    .unwrap_err();
    assert_eq!(
        err,
        AnalyzeError::Flow(FlowError::DuplicateObservation {
            route_id: "a_b_swap".into(),
            day: Day::parse("2026-06-13").unwrap(),
        })
    );
}

#[test]
fn zero_supply_denominator_fails_the_analysis() {
    let cfg = build_project(&linked("2026-06-12", "2026-06-12")).unwrap();
    let err = try_analyze(
        &cfg,
        vec![],
        flows(&[("a_b_swap", "2026-06-12", "10.0", "1.0")]),
        Some(supply(&[("A", "2026-06-11", "0")])),
    )
    .unwrap_err();
    assert_eq!(err, AnalyzeError::Flow(FlowError::NonPositiveDenominator(Dec::from_int(0))));
}

#[test]
fn route_evidence_without_flow_rows_makes_no_flow_claim() {
    let cfg = build_project(&linked("2026-06-12", "2026-06-12")).unwrap();
    let result = analyze(&cfg, vec![], vec![], Some(supply(&[("A", "2026-06-11", "1000.0")])));
    assert!(matches!(result.route_evidence, EvidenceSection::Available { .. }));
    assert!(matches!(result.directional_flow, EvidenceSection::NotObservable { .. }));
    let row = ladder_status(&result);
    assert_eq!(row.directional_flow, "not_observable");
    assert_eq!(row.claim_boundary, "insufficient declared evidence for linked-flow claims");
}

#[test]
fn flow_days_in_a_response_window_are_not_outside_all_windows() {
    let mut raw = linked("2026-06-12", "2026-06-12");
    let mut baseline = window("baseline", "2026-06-01", "2026-06-03");
    baseline.applies_to = Some(vec!["response".into()]);
    raw.windows.push(baseline);
    let cfg = build_project(&raw).unwrap();
    let result = analyze(
        &cfg,
        vec![],
        flows(&[
            ("a_b_swap", "2026-06-02", "5.0", "1.0"),
            ("a_b_swap", "2026-06-12", "10.0", "1.0"),
            ("a_b_swap", "2031-12-31", "8.0", "2.0"),
        ]),
        Some(supply(&[("A", "2026-06-11", "1000.0")])),
    );
    let gap = result
        .boundary
        .missing
        .iter()
        .find(|g| g.scope == "a_b_swap" && g.reason.contains("outside all declared windows"))
        .unwrap();
    assert_eq!(gap.reason, "1 observation day(s) outside all declared windows (e.g. 2031-12-31)");
}

#[test]
fn repeated_route_id_rows_carry_the_last_declared_measurement() {
    let mut raw = linked("2026-06-12", "2026-06-12");
    let mut second = route("a_b_swap", "A", "A");
    second.measurement.attribution = "mint_pair_swaps".into();
    raw.routes.push(second);
    let cfg = shocktrace::project::map::map_raw(&raw).unwrap();
    let result = analyze(
        &cfg,
        vec![],
        flows(&[("a_b_swap", "2026-06-12", "10.0", "1.0")]),
        Some(supply(&[("A", "2026-06-11", "1000.0")])),
    );
    let EvidenceSection::Available { data } = &result.directional_flow else {
        panic!("expected available flow");
    };
    assert_eq!(data.len(), 1);
    assert_eq!(data[0].attribution, shocktrace::flow::AttributionMethod::MintPairSwaps);
}
