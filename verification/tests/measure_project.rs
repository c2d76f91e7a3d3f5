use rust_decimal::prelude::{FromPrimitive, ToPrimitive};
use rust_decimal::Decimal;
use shocktrace::day::Day;
use shocktrace::dec::Dec;
use shocktrace::ingest::daily_response::{parse_response_rows, DailyResponseRow};
use shocktrace::ingest::reference_returns::{parse_reference_returns, RawReferenceReturn, ReferenceReturnObservation};
use shocktrace::measure::divergence::load_divergence_summary;
use shocktrace::measure::format::{format_divergence_summary, format_passthrough_summary, format_shock_report_summary};
use shocktrace::measure::project_support::MeasureProjectError;
use shocktrace::measure::response_gap::load_response_gap_summary;
use shocktrace::measure::shock::load_asset_shock_report;
use shocktrace::project::{
    ProjectConfig, RawAsset, RawCoverage, RawEvent, RawInputs, RawLocator, RawProject, RawWindow,
    ResponseConfig,
};
use shocktrace::response::ResponseObservation;
use shocktrace::{build_project, AssetKey, MeasureError};

fn sqrt(x: Dec) -> Option<Dec> {
    let f = Decimal::from_i128_with_scale(x.mantissa(), x.scale()).to_f64()?;
    if !f.is_finite() {
        return None;
    }
    let r = Decimal::from_f64(f.sqrt())?;
    Dec::from_parts(r.mantissa(), r.scale())
}

fn asset(key: &str) -> RawAsset {
    RawAsset {
        key: key.into(),
        chain: "test-chain".into(),
        locator: RawLocator::Opaque { opaque_id: format!("{}-id", key.to_lowercase()) },
        display_symbol: key.into(),
        issuer: None,
        product_kind: "unknown".into(),
        underlying_ref: None,
        role: None,
        session_calendar: None,
    }
}

fn fixture_raw() -> RawProject {
    RawProject {
        schema_version: 3,
        project_id: "measure_it_fixture".into(),
        name: "Measure integration fixture".into(),
        event: RawEvent { id: "measure_it_event".into(), name: "Measure integration test event".into(), timestamp: 1767657600 },
        windows: vec![
            RawWindow { name: "baseline".into(), start: Day::parse("2026-01-02").unwrap(), end: Day::parse("2026-01-05").unwrap(), applies_to: None },
            RawWindow { name: "event".into(), start: Day::parse("2026-01-06").unwrap(), end: Day::parse("2026-01-06").unwrap(), applies_to: None },
        ],
        assets: vec![asset("A"), asset("B")],
        routes: vec![],
        route_evidence: vec![],
        has_global_flow: false,
        controls: vec![],
        coverage_declared: vec![],
        inputs: RawInputs {
            flows: None,
            supply: None,
            response: Some("response.csv".into()),
            references: Some("references.csv".into()),
        },
        response: Some(ResponseConfig { baseline_window: "baseline".into() }),
        data_provenance: None,
    }
}

fn fixture() -> ProjectConfig {
    build_project(&fixture_raw()).unwrap()
}

fn rows() -> Vec<ResponseObservation> {
    let table = [
        ("A", "2026-01-01", "100"),
        ("A", "2026-01-02", "102"),
        ("A", "2026-01-03", "106.08"),
        ("A", "2026-01-04", "108.2016"),
        ("A", "2026-01-05", "112.529664"),
        ("A", "2026-01-06", "123.7826304"),
        ("B", "2026-01-01", "50"),
        ("B", "2026-01-02", "50.5"),
        ("B", "2026-01-03", "51.005"),
        ("B", "2026-01-04", "51.51505"),
        ("B", "2026-01-05", "52.0302005"),
        ("B", "2026-01-06", "52.550502505"),
    ];
    let raw: Vec<DailyResponseRow> = table
        .iter()
        .map(|(k, d, p)| DailyResponseRow { asset_key: k.to_string(), day: d.to_string(), price: Some(p.to_string()), volume: Some(String::new()) })
        .collect();
    parse_response_rows(&raw, &"response.csv".to_string()).unwrap()
}

fn references() -> Vec<ReferenceReturnObservation> {
    let raw = vec![RawReferenceReturn {
        reference_key: "A_REF".into(),
        asset_key: "A".into(),
        day: "2026-01-06".into(),
        reference_return: "0.08".into(),
        source_label: "fixture".into(),
        source_url: "https://example.test".into(),
        cutoff: "fixture close".into(),
    }];
    parse_reference_returns(&raw, &"references.csv".to_string()).unwrap()
}

#[test]
fn shock_report_uses_default_event_and_baseline_windows() {
    let cfg = fixture();
    let report = load_asset_shock_report(&cfg, &rows(), &AssetKey::new("A"), &None, &None, &vec![1, 3, 5, 20], &sqrt).unwrap();
    assert_eq!(report.shock.event_window_name, "event");
    assert_eq!(report.shock.baseline_window_name, "baseline");
    assert_eq!(report.shock.baseline_n, 4);
    assert_eq!(report.shock.baseline_mean, Some(Dec::parse("0.03").unwrap()));
    assert_eq!(report.shock.baseline_std, Some(Dec::parse("0.01").unwrap()));
    assert_eq!(report.shock.event_return, Some(Dec::parse("0.10").unwrap()));
    assert_eq!(report.shock.z_score, Some(Dec::parse("7").unwrap()));
    assert!(report.horizons.horizons.iter().all(|h| h.day.is_none()));
    let text = format_shock_report_summary("A", &report);
    assert!(text.starts_with("shock score: A\n"));
    assert!(text.contains("  z_score        : 7"));
}

#[test]
fn divergence_report_known_fixture_via_project_loader() {
    let cfg = fixture();
    let summary = load_divergence_summary(&cfg, &rows(), &AssetKey::new("A"), &AssetKey::new("B"), &None, &None, &sqrt).unwrap();
    assert_eq!(summary.matched_days, 5);
    assert_eq!(summary.baseline_n, 4);
    assert_eq!(summary.baseline_mean, Some(Dec::parse("0.02").unwrap()));
    assert_eq!(summary.baseline_std, Some(Dec::parse("0.01").unwrap()));
    assert_eq!(summary.event_divergence, Some(Dec::parse("0.09").unwrap()));
    assert_eq!(summary.z_score, Some(Dec::parse("7").unwrap()));
    let text = format_divergence_summary(&summary);
    assert!(text.starts_with("divergence: A vs B\n"));
}

#[test]
fn response_gap_report_known_fixture_via_project_loader() {
    let cfg = fixture();
    let summary = load_response_gap_summary(&cfg, &references(), &rows(), &AssetKey::new("A"), &"A_REF".to_string(), &None).unwrap();
    assert_eq!(summary.reference_return, Dec::parse("0.08").unwrap());
    assert_eq!(summary.token_return, Some(Dec::parse("0.10").unwrap()));
    assert_eq!(summary.response_gap, Some(Dec::parse("0.02").unwrap()));
    assert_eq!(summary.direction_match, Some(true));
    let text = format_passthrough_summary(&summary);
    assert!(text.contains("  direction       : same\n"));
    assert!(text.contains("  reference cutoff: fixture close\n"));
}

#[test]
fn explicit_window_overrides_are_honored() {
    let cfg = fixture();
    let report = load_asset_shock_report(
        &cfg,
        &rows(),
        &AssetKey::new("A"),
        &Some("event".to_string()),
        &Some("baseline".to_string()),
        &vec![1],
        &sqrt,
    )
    .unwrap();
    assert_eq!(report.shock.z_score, Some(Dec::parse("7").unwrap()));
}

#[test]
fn unknown_window_override_is_a_structured_error() {
    let cfg = fixture();
    let err = load_asset_shock_report(&cfg, &rows(), &AssetKey::new("A"), &Some("does-not-exist".to_string()), &None, &vec![1], &sqrt).unwrap_err();
    assert!(matches!(err, MeasureProjectError::WindowNotFound(_)));
}

#[test]
fn unknown_asset_is_a_structured_error_not_a_panic() {
    let cfg = fixture();
    let err = load_asset_shock_report(&cfg, &rows(), &AssetKey::new("ZZZ"), &None, &None, &vec![1], &sqrt).unwrap_err();
    assert!(matches!(err, MeasureProjectError::UndeclaredAsset { .. }));
}

#[test]
fn divergence_with_unknown_second_asset_errors() {
    let cfg = fixture();
    let err = load_divergence_summary(&cfg, &rows(), &AssetKey::new("A"), &AssetKey::new("ZZZ"), &None, &None, &sqrt).unwrap_err();
    assert!(matches!(err, MeasureProjectError::UndeclaredAsset { .. }));
}

#[test]
fn measure_includes_declared_caveats_and_low_baseline_gap() {
    let mut raw = fixture_raw();
    raw.coverage_declared = vec![RawCoverage {
        kind: "historical_depth".into(),
        scope: "A".into(),
        reason: "fixture: only daily closes".into(),
    }];
    let cfg = build_project(&raw).unwrap();
    let report = load_asset_shock_report(&cfg, &rows(), &AssetKey::new("A"), &None, &None, &vec![1], &sqrt).unwrap();
    assert!(report.shock.low_baseline);
    assert!(report.boundary.missing.iter().any(|g| g.kind.label() == "historical_depth" && g.scope == "A"));
    assert!(report.boundary.missing.iter().any(|g| g.kind.label() == "low_baseline"));
}

#[test]
fn measure_error_reexported_at_crate_root() {
    let err = shocktrace::daily_returns(vec![]).unwrap_err();
    assert!(matches!(err, MeasureError::EmptySeries(_)));
}

#[test]
fn missing_response_input_is_reported_first() {
    let mut raw = fixture_raw();
    raw.inputs.response = None;
    let cfg = build_project(&raw).unwrap();
    let err = load_asset_shock_report(&cfg, &rows(), &AssetKey::new("A"), &None, &None, &vec![1], &sqrt).unwrap_err();
    assert_eq!(err, MeasureProjectError::NoResponseInput);
}

#[test]
fn ambiguous_reference_is_refused() {
    let cfg = fixture();
    let mut refs = references();
    refs.push(refs[0].clone());
    let err = load_response_gap_summary(&cfg, &refs, &rows(), &AssetKey::new("A"), &"A_REF".to_string(), &None).unwrap_err();
    assert!(matches!(err, MeasureProjectError::AmbiguousReference { .. }));
}

#[test]
fn reference_outside_event_window_is_not_found() {
    let cfg = fixture();
    let mut refs = references();
    refs[0].day = Day::parse("2026-01-03").unwrap();
    let err = load_response_gap_summary(&cfg, &refs, &rows(), &AssetKey::new("A"), &"A_REF".to_string(), &None).unwrap_err();
    assert_eq!(
        err,
        MeasureProjectError::ReferenceNotFound { reference: "A_REF".to_string(), asset: "A".to_string() }
    );
}

#[test]
fn missing_reference_input_is_reported() {
    let mut raw = fixture_raw();
    raw.inputs.references = None;
    let cfg = build_project(&raw).unwrap();
    let err = load_response_gap_summary(&cfg, &references(), &rows(), &AssetKey::new("A"), &"A_REF".to_string(), &None).unwrap_err();
    assert_eq!(err, MeasureProjectError::NoReferenceInput);
}

#[test]
fn token_without_return_on_reference_day_gets_a_price_gap() {
    let cfg = fixture();
    let kept: Vec<ResponseObservation> = rows().into_iter().filter(|o| o.day != Day::parse("2026-01-05").unwrap()).collect();
    let summary = load_response_gap_summary(&cfg, &references(), &kept, &AssetKey::new("A"), &"A_REF".to_string(), &None).unwrap();
    assert_eq!(summary.token_return, None);
    assert_eq!(summary.response_gap, None);
    assert_eq!(summary.direction_match, None);
    let last = summary.boundary.missing.last().unwrap();
    assert_eq!(last.kind.label(), "price");
    assert_eq!(last.scope, "A@2026-01-06");
    assert_eq!(last.reason, "no adjacent-calendar-day token return is available on the reference day");
    assert_eq!(summary.boundary.missing.len(), 1);
    assert_eq!(summary.boundary.assumptions.len(), 2);
    assert!(summary.boundary.assumptions[1].starts_with("reference 'A_REF' uses fixture close"));
}

#[test]
fn missing_sessions_gap_names_asset_window_and_counts() {
    let cfg = fixture();
    let kept: Vec<ResponseObservation> = rows().into_iter().filter(|o| o.day != Day::parse("2026-01-03").unwrap()).collect();
    let report = load_asset_shock_report(&cfg, &kept, &AssetKey::new("A"), &None, &None, &vec![1], &sqrt).unwrap();
    let gap = report.boundary.missing.iter().find(|g| g.scope == "A@baseline").unwrap();
    assert_eq!(gap.kind.label(), "response_coverage");
    assert_eq!(gap.reason, "1 of 4 calendar sessions missing in window 'baseline'");
    assert!(report.boundary.missing.iter().all(|g| g.scope != "A@event"));
}

#[test]
fn no_baseline_window_without_response_table_or_override() {
    let mut raw = fixture_raw();
    raw.response = None;
    let cfg = build_project(&raw).unwrap();
    let err = load_asset_shock_report(&cfg, &rows(), &AssetKey::new("A"), &None, &None, &vec![1], &sqrt).unwrap_err();
    assert_eq!(err, MeasureProjectError::NoBaselineWindow);
}
