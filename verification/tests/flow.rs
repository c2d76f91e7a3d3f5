use rust_decimal::Decimal;
use shocktrace::day::Day;
use shocktrace::dec::Dec;
use shocktrace::event::{default_window_applies_to, EventWindow};
use shocktrace::flow::{
    account_directional_flows, AttributionMethod, DirectionalFlowObservation, FlowError, FlowUnit,
    Quantity,
};
use shocktrace::identity::AssetKey;
use std::str::FromStr;

fn dec(s: &str) -> Dec {
    Dec::parse(s).unwrap()
}

fn from_decimal(d: Decimal) -> Dec {
    Dec::from_parts(d.mantissa(), d.scale()).unwrap()
}

fn q(s: &str) -> Quantity {
    Quantity::new(dec(s)).unwrap()
}

fn day(s: &str) -> Day {
    Day::parse(s).unwrap()
}

fn window() -> EventWindow {
    EventWindow {
        name: "post_event".into(),
        start: day("2026-06-12"),
        end: day("2026-06-18"),
        applies_to: default_window_applies_to(),
    }
}

fn obs(d: &str, a_to_b: &str, b_to_a: &str) -> DirectionalFlowObservation {
    DirectionalFlowObservation {
        route_id: "a_b".into(),
        day: day(d),
        gross_a_to_b: q(a_to_b),
        gross_b_to_a: q(b_to_a),
        unit: FlowUnit::TokenNative { asset: AssetKey::new("A") },
        attribution: AttributionMethod::Fixture,
    }
}

#[test]
fn accounts_gross_net_and_reversal() {
    let series = vec![
        obs("2026-06-12", "100", "20"),
        obs("2026-06-13", "50", "40"),
        obs("2026-06-14", "10", "30"),
    ];
    let summary = account_directional_flows(series, &window(), Some(Dec::from_int(1000))).unwrap();
    assert_eq!(summary.window_name, "post_event");
    assert_eq!(summary.window_days, 7);
    assert_eq!(summary.observed_days, 3);
    assert_eq!(summary.gross_a_to_b_total.as_decimal(), Dec::from_int(160));
    assert_eq!(summary.gross_b_to_a_total.as_decimal(), Dec::from_int(90));
    assert_eq!(summary.net_total, Dec::from_int(70));
    assert_eq!(
        summary.reversal_ratio.unwrap(),
        from_decimal(Decimal::from(90) / Decimal::from(160))
    );
    assert_eq!(
        summary.net_over_denominator.unwrap(),
        from_decimal(Decimal::from(70) / Decimal::from(1000))
    );
    assert_eq!(summary.peak_cumulative_net, Dec::from_int(90));
    assert_eq!(summary.trough_cumulative_net, Dec::from_int(70));
    assert_eq!(summary.days_cumulative_negative, 0);
    assert!(summary.interpretation_boundary.contains("not migration"));
}

#[test]
fn missing_denominator_stays_none() {
    let series = vec![obs("2026-06-12", "10", "1")];
    let summary = account_directional_flows(series, &window(), None).unwrap();
    assert!(summary.net_over_denominator.is_none());
}

#[test]
fn detects_cumulative_sign_changes() {
    let series = vec![
        obs("2026-06-12", "10", "0"),
        obs("2026-06-13", "0", "15"),
        obs("2026-06-14", "20", "0"),
    ];
    let summary = account_directional_flows(series, &window(), None).unwrap();
    assert_eq!(summary.sign_change_days, 2);
    assert_eq!(summary.net_total, Dec::from_int(15));
    assert_eq!(summary.days_cumulative_negative, 1);
    assert_eq!(summary.trough_cumulative_net, Dec::from_int(-5));
}

#[test]
fn rejects_negative_quantity() {
    assert!(Quantity::new(Dec::from_int(-1)).is_err());
}

#[test]
fn accepts_decimal_negative_zero_as_zero() {
    let neg_zero = from_decimal(Decimal::from_str("-0").unwrap());
    let q = Quantity::new(neg_zero).unwrap();
    assert_eq!(q.as_decimal(), Dec::zero());
}

#[test]
fn rejects_non_positive_denominator() {
    let series = vec![obs("2026-06-12", "1", "0")];
    let err = account_directional_flows(series, &window(), Some(Dec::zero())).unwrap_err();
    assert!(matches!(err, FlowError::NonPositiveDenominator(_)));
}

#[test]
fn flow_rejects_duplicate_day() {
    let series = vec![obs("2026-06-12", "100", "20"), obs("2026-06-12", "100", "20")];
    let err = account_directional_flows(series, &window(), None).unwrap_err();
    assert!(matches!(
        err,
        FlowError::DuplicateObservation { day: d, .. } if d == day("2026-06-12")
    ));
}

#[test]
fn all_negative_path_peak_is_first_cumulative() {
    let series = vec![
        obs("2026-06-12", "0", "40"),
        obs("2026-06-13", "0", "20"),
        obs("2026-06-14", "0", "15"),
    ];
    let summary = account_directional_flows(series, &window(), None).unwrap();
    assert_eq!(summary.net_total, Dec::from_int(-75));
    assert_eq!(summary.peak_cumulative_net, Dec::from_int(-40));
    assert_eq!(summary.trough_cumulative_net, Dec::from_int(-75));
    assert_eq!(summary.days_cumulative_negative, 3);
    assert!(summary.reversal_ratio.is_none());
}

#[test]
fn reverse_only_series_reversal_ratio_is_none() {
    let series = vec![obs("2026-06-12", "0", "10")];
    let summary = account_directional_flows(series, &window(), None).unwrap();
    assert!(summary.reversal_ratio.is_none());
    assert_eq!(summary.net_total, Dec::from_int(-10));
}

#[test]
fn cumulative_path_follows_day_order_for_unsorted_input() {
    let series = vec![obs("2026-06-14", "10", "30"), obs("2026-06-12", "100", "20")];
    let summary = account_directional_flows(series, &window(), None).unwrap();
    assert_eq!(summary.cumulative_path.len(), 2);
    assert_eq!(summary.cumulative_path[0].day, day("2026-06-12"));
    assert_eq!(summary.cumulative_path[0].cumulative_net, Dec::from_int(80));
    assert_eq!(summary.cumulative_path[1].cumulative_net, Dec::from_int(60));
}

#[test]
fn mixed_route_ids_are_rejected() {
    let mut other = obs("2026-06-13", "1", "0");
    other.route_id = "c_d".into();
    let series = vec![obs("2026-06-12", "1", "0"), other];
    let err = account_directional_flows(series, &window(), None).unwrap_err();
    assert!(matches!(err, FlowError::MixedRouteIds { .. }));
}
