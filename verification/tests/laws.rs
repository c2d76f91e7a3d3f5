use shocktrace::coverage::{CoverageGap, EvidenceBoundary, GapSource, MissingKind};
use shocktrace::day::Day;
use shocktrace::dec::{dec_le, Dec};
use shocktrace::event::{default_window_applies_to, EventWindow, SessionCalendar};
use shocktrace::fetch::urlencoding_minimal;
use shocktrace::flow::{account_directional_flows, AttributionMethod, DirectionalFlowObservation, FlowUnit, Quantity};
use shocktrace::identity::AssetKey;
use shocktrace::measure::daily::daily_returns;
use shocktrace::order::text_lt;
use shocktrace::project::{RawEvent, RawInputs, RawProject, RawWindow};
use shocktrace::provenance::{hash_bytes, hex_encode};
use shocktrace::report::render::{filter_boundary, GapFilter};
use shocktrace::response::{account_market_response, ResponseObservation};
use shocktrace::{build_project, validate_project};

fn day(s: &str) -> Day {
    Day::parse(s).unwrap()
}

fn dec(s: &str) -> Dec {
    Dec::parse(s).unwrap()
}

fn gap(kind: MissingKind, scope: &str, source: GapSource) -> CoverageGap {
    CoverageGap { kind, scope: scope.into(), reason: "r".into(), source }
}

fn mixed_boundary() -> EvidenceBoundary {
    EvidenceBoundary {
        missing: vec![
            gap(MissingKind::Supply, "s1", GapSource::Detected),
            gap(MissingKind::OffChainVenue, "declared_1", GapSource::Declared),
            gap(MissingKind::Price, "p1", GapSource::Detected),
            gap(MissingKind::Other("response_coverage".into()), "rc", GapSource::Detected),
            gap(MissingKind::TraderIntent, "declared_2", GapSource::Declared),
            gap(MissingKind::RouteAttribution, "ra", GapSource::Detected),
            gap(MissingKind::HistoricalDepth, "hd", GapSource::Detected),
        ],
        assumptions: vec!["a".into()],
    }
}

fn scopes(b: &EvidenceBoundary) -> Vec<String> {
    b.missing.iter().map(|g| g.scope.clone()).collect()
}

#[test]
fn views_keep_every_declared_caveat_in_order() {
    let b = mixed_boundary();
    for filter in [GapFilter::Response, GapFilter::Flow] {
        let view = filter_boundary(&b, filter);
        let declared: Vec<String> =
            view.missing.iter().filter(|g| g.source == GapSource::Declared).map(|g| g.scope.clone()).collect();
        assert_eq!(declared, vec!["declared_1".to_string(), "declared_2".to_string()]);
        assert_eq!(view.assumptions, vec!["a".to_string()]);
    }
}

#[test]
fn view_filter_twice_is_once() {
    let b = mixed_boundary();
    for filter in [GapFilter::Response, GapFilter::Flow] {
        let once = filter_boundary(&b, filter);
        let twice = filter_boundary(&once, filter);
        assert_eq!(scopes(&once), scopes(&twice));
    }
}

#[test]
fn response_and_flow_views_share_only_declared_gaps() {
    let b = mixed_boundary();
    let response = scopes(&filter_boundary(&b, GapFilter::Response));
    let flow = scopes(&filter_boundary(&b, GapFilter::Flow));
    assert_eq!(response, vec!["declared_1", "p1", "rc", "declared_2"]);
    assert_eq!(flow, vec!["s1", "declared_1", "declared_2", "ra"]);
    let shared: Vec<&String> = response.iter().filter(|s| flow.contains(s)).collect();
    assert_eq!(shared, vec!["declared_1", "declared_2"]);
    assert!(!response.contains(&"hd".to_string()) && !flow.contains(&"hd".to_string()));
}

fn flow_obs(d: &str, a_to_b: &str, b_to_a: &str) -> DirectionalFlowObservation {
    DirectionalFlowObservation {
        route_id: "a_b".into(),
        day: day(d),
        gross_a_to_b: Quantity::new(dec(a_to_b)).unwrap(),
        gross_b_to_a: Quantity::new(dec(b_to_a)).unwrap(),
        unit: FlowUnit::TokenNative { asset: AssetKey::new("A") },
        attribution: AttributionMethod::Fixture,
    }
}

fn flow_window() -> EventWindow {
    EventWindow {
        name: "post_event".into(),
        start: day("2026-06-10"),
        end: day("2026-06-20"),
        applies_to: default_window_applies_to(),
    }
}

#[test]
fn flow_peak_and_trough_bound_the_path() {
    let series = vec![
        flow_obs("2026-06-15", "0", "50"),
        flow_obs("2026-06-11", "30", "0"),
        flow_obs("2026-06-13", "5", "40"),
        flow_obs("2026-06-12", "20", "0"),
    ];
    let s = account_directional_flows(series, &flow_window(), None).unwrap();
    let path: Vec<Dec> = s.cumulative_path.iter().map(|p| p.cumulative_net).collect();
    assert_eq!(path, vec![dec("30"), dec("50"), dec("15"), dec("-35")]);
    assert_eq!(s.peak_cumulative_net, dec("50"));
    assert_eq!(s.trough_cumulative_net, dec("-35"));
    for p in &path {
        assert!(dec_le(&s.trough_cumulative_net, p) && dec_le(p, &s.peak_cumulative_net));
    }
    assert!(s.days_cumulative_negative as usize <= s.observed_days);
    assert!((s.sign_change_days as usize) < s.observed_days);
    let days: Vec<i32> = s.cumulative_path.iter().map(|p| p.day.number()).collect();
    assert!(days.windows(2).all(|w| w[0] < w[1]));
}

#[test]
fn reversal_ratio_only_with_forward_gross() {
    let forward = account_directional_flows(vec![flow_obs("2026-06-11", "4", "1")], &flow_window(), None).unwrap();
    assert_eq!(forward.reversal_ratio, Some(dec("0.25")));
    assert_eq!(forward.net_over_denominator, None);
    let reverse_only =
        account_directional_flows(vec![flow_obs("2026-06-11", "0", "3")], &flow_window(), Some(dec("10"))).unwrap();
    assert_eq!(reverse_only.reversal_ratio, None);
    assert_eq!(reverse_only.net_over_denominator, Some(dec("-0.3")));
}

fn resp(d: &str, price: Option<&str>, volume: Option<&str>) -> ResponseObservation {
    ResponseObservation {
        asset_key: AssetKey::new("GC"),
        day: day(d),
        price: price.map(dec),
        volume: volume.map(dec),
    }
}

#[test]
fn response_counts_stay_within_observed_days() {
    let window = EventWindow {
        name: "event".into(),
        start: day("2026-06-12"),
        end: day("2026-06-15"),
        applies_to: default_window_applies_to(),
    };
    let series = vec![
        resp("2026-06-12", Some("100"), None),
        resp("2026-06-13", None, Some("5")),
        resp("2026-06-14", None, None),
    ];
    let s = account_market_response(series, &window, &vec![], SessionCalendar::Continuous).unwrap();
    assert_eq!(s.observed_days, 3);
    assert_eq!(s.days_with_price, 1);
    assert_eq!(s.days_with_volume, 1);
    assert_eq!(s.price_return, None);
    assert_eq!(s.baseline_median_volume, None);
    assert_eq!(s.baseline_normalized_volume, None);
}

#[test]
fn daily_returns_span_one_day_each() {
    let series = vec![
        resp("2026-06-01", Some("100"), None),
        resp("2026-06-02", Some("110"), None),
        resp("2026-06-04", Some("99"), None),
        resp("2026-06-05", Some("90"), None),
    ];
    let returns = daily_returns(series).unwrap();
    assert_eq!(returns.len(), 2);
    for r in &returns {
        assert_eq!(r.day.number(), r.prev_day.number() + 1);
    }
}

#[test]
fn a_loaded_project_passes_validation() {
    let raw = RawProject {
        schema_version: 3,
        project_id: "p".into(),
        name: "p".into(),
        event: RawEvent { id: "e".into(), name: "e".into(), timestamp: 0 },
        windows: vec![
            RawWindow { name: "a".into(), start: day("2026-01-01"), end: day("2026-01-02"), applies_to: None },
            RawWindow { name: "b".into(), start: day("2026-01-03"), end: day("2026-01-03"), applies_to: None },
        ],
        assets: vec![],
        routes: vec![],
        route_evidence: vec![],
        has_global_flow: false,
        controls: vec![],
        coverage_declared: vec![],
        inputs: RawInputs { flows: None, supply: None, response: None, references: None },
        response: None,
        data_provenance: None,
    };
    let cfg = build_project(&raw).unwrap();
    assert_eq!(validate_project(&cfg), Ok(()));
    assert_eq!(cfg.schema_version, 3);
    assert!(cfg.windows.iter().all(|w| w.start.number() <= w.end.number() && !w.applies_to.is_empty()));
}

#[test]
fn hex_text_has_two_digits_per_byte_and_keeps_bytes_apart() {
    let a = hex_encode(&[0x00, 0xff, 0x10]);
    let b = hex_encode(&[0x00, 0xff, 0x01]);
    assert_eq!(a, "00ff10");
    assert_eq!(b, "00ff01");
    assert_ne!(a, b);
    let h = hash_bytes(b"shocktrace");
    assert_eq!(h.len(), 64);
    assert!(h.chars().all(|c| c.is_ascii_digit() || ('a'..='f').contains(&c)));
}

#[test]
fn unreserved_symbols_are_not_encoded() {
    assert_eq!(urlencoding_minimal("GLD"), "GLD");
    assert_eq!(urlencoding_minimal("a-b_c.d~9"), "a-b_c.d~9");
    assert_eq!(urlencoding_minimal("CL=F"), "CL%3DF");
}

#[test]
fn text_order_is_a_strict_total_order_on_samples() {
    let texts = ["", "A", "AB", "B", "a", "é", "AA"];
    for a in texts {
        assert!(!text_lt(a, a));
        for b in texts {
            if a != b {
                assert!(text_lt(a, b) ^ text_lt(b, a));
                assert_eq!(text_lt(a, b), a < b);
            }
            for c in texts {
                if text_lt(a, b) && text_lt(b, c) {
                    assert!(text_lt(a, c));
                }
            }
        }
    }
}

#[test]
fn flow_accounting_ignores_input_order() {
    let rows = || {
        vec![
            flow_obs("2026-06-15", "0", "50"),
            flow_obs("2026-06-11", "30", "0"),
            flow_obs("2026-06-13", "5", "40"),
            flow_obs("2026-06-12", "20", "0"),
        ]
    };
    let mut reordered = rows();
    reordered.reverse();
    let a = account_directional_flows(rows(), &flow_window(), Some(dec("100"))).unwrap();
    let b = account_directional_flows(reordered, &flow_window(), Some(dec("100"))).unwrap();
    assert_eq!(a, b);
}

#[test]
fn exact_flow_totals_agree_with_the_path() {
    let s = account_directional_flows(
        vec![flow_obs("2026-06-11", "30", "0"), flow_obs("2026-06-12", "2.5", "40"), flow_obs("2026-06-13", "1", "0.25")],
        &flow_window(),
        None,
    )
    .unwrap();
    assert_eq!(s.gross_a_to_b_total.as_decimal(), dec("33.5"));
    assert_eq!(s.gross_b_to_a_total.as_decimal(), dec("40.25"));
    assert_eq!(s.net_total, dec("-6.75"));
    assert_eq!(s.cumulative_path.last().unwrap().cumulative_net, s.net_total);
}
