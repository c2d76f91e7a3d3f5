use rust_decimal::prelude::{FromPrimitive, ToPrimitive};
use rust_decimal::Decimal;
use shocktrace::day::Day;
use shocktrace::dec::Dec;
use shocktrace::event::{default_window_applies_to, EventWindow};
use shocktrace::identity::AssetKey;
use shocktrace::measure::daily::MeasureError;
use shocktrace::measure::shock::account_shock_score;
use shocktrace::measure::stats::ZScoreUnavailable;
use shocktrace::response::ResponseObservation;

fn sqrt(x: Dec) -> Option<Dec> {
    let f = Decimal::from_i128_with_scale(x.mantissa(), x.scale()).to_f64()?;
    if !f.is_finite() {
        return None;
    }
    let r = Decimal::from_f64(f.sqrt())?;
    Dec::from_parts(r.mantissa(), r.scale())
}

fn obs(day: &str, price: &str) -> ResponseObservation {
    ResponseObservation {
        asset_key: AssetKey::new("GC"),
        day: Day::parse(day).unwrap(),
        price: Some(Dec::parse(price).unwrap()),
        volume: None,
    }
}

fn window(name: &str, start: &str, end: &str) -> EventWindow {
    EventWindow {
        name: name.into(),
        start: Day::parse(start).unwrap(),
        end: Day::parse(end).unwrap(),
        applies_to: default_window_applies_to(),
    }
}

fn fixture_series() -> Vec<ResponseObservation> {
    vec![
        obs("2026-01-01", "100"),
        obs("2026-01-02", "101"),
        obs("2026-01-03", "104.03"),
        obs("2026-01-04", "105.0703"),
        obs("2026-01-05", "108.222409"),
        obs("2026-01-06", "113.63352945"),
    ]
}

#[test]
fn shock_known_z_score_fixture() {
    let baseline = window("baseline", "2026-01-02", "2026-01-05");
    let event = window("event", "2026-01-06", "2026-01-06");
    let score = account_shock_score(fixture_series(), &event, &baseline, &sqrt).unwrap();
    assert_eq!(score.event_day.unwrap().to_text(), "2026-01-06");
    assert_eq!(score.event_return, Some(Dec::parse("0.05").unwrap()));
    assert_eq!(score.baseline_n, 4);
    assert_eq!(score.baseline_mean, Some(Dec::parse("0.02").unwrap()));
    assert_eq!(score.baseline_std, Some(Dec::parse("0.01").unwrap()));
    assert_eq!(score.z_score, Some(Dec::parse("3").unwrap()));
    assert!(score.low_baseline);
    assert!(score.unavailable_reason.is_none());
}

#[test]
fn thin_baseline_computes_z_but_flags_low_baseline() {
    let series = vec![
        obs("2026-01-01", "100"),
        obs("2026-01-02", "101"),
        obs("2026-01-03", "104.03"),
        obs("2026-01-04", "110"),
    ];
    let baseline = window("baseline", "2026-01-02", "2026-01-03");
    let event = window("event", "2026-01-04", "2026-01-04");
    let score = account_shock_score(series, &event, &baseline, &sqrt).unwrap();
    assert!(score.z_score.is_some());
    assert!(score.low_baseline);
    assert_eq!(score.baseline_n, 2);
}

#[test]
fn zero_variance_baseline_yields_none_with_reason() {
    let series = vec![
        obs("2026-01-01", "100"),
        obs("2026-01-02", "102"),
        obs("2026-01-03", "104.04"),
        obs("2026-01-04", "110"),
    ];
    let baseline = window("baseline", "2026-01-02", "2026-01-03");
    let event = window("event", "2026-01-04", "2026-01-04");
    let score = account_shock_score(series, &event, &baseline, &sqrt).unwrap();
    assert!(score.z_score.is_none());
    assert_eq!(score.unavailable_reason, Some(ZScoreUnavailable::ZeroBaselineVariance));
}

#[test]
fn insufficient_baseline_yields_none_with_reason() {
    let series = vec![obs("2026-01-01", "100"), obs("2026-01-02", "101"), obs("2026-01-03", "110")];
    let baseline = window("baseline", "2026-01-02", "2026-01-02");
    let event = window("event", "2026-01-03", "2026-01-03");
    let score = account_shock_score(series, &event, &baseline, &sqrt).unwrap();
    assert!(score.z_score.is_none());
    assert_eq!(
        score.unavailable_reason,
        Some(ZScoreUnavailable::InsufficientBaseline { have: 1, need: 2 })
    );
}

#[test]
fn missing_event_observation_yields_none_with_reason() {
    let series = vec![obs("2026-01-01", "100"), obs("2026-01-02", "101"), obs("2026-01-03", "104.03")];
    let baseline = window("baseline", "2026-01-02", "2026-01-03");
    let event = window("event", "2026-06-01", "2026-06-01");
    let score = account_shock_score(series, &event, &baseline, &sqrt).unwrap();
    assert!(score.event_return.is_none());
    assert!(score.event_day.is_none());
    assert!(score.z_score.is_none());
    assert_eq!(score.unavailable_reason, Some(ZScoreUnavailable::NoEventValue));
}

#[test]
fn propagates_duplicate_day_error() {
    let series = vec![obs("2026-01-01", "100"), obs("2026-01-01", "101")];
    let baseline = window("baseline", "2026-01-01", "2026-01-01");
    let event = window("event", "2026-01-01", "2026-01-01");
    let err = account_shock_score(series, &event, &baseline, &sqrt).unwrap_err();
    assert!(matches!(err, MeasureError::DuplicateObservation { .. }));
}
