use rust_decimal::prelude::{FromPrimitive, ToPrimitive};
use rust_decimal::Decimal;
use shocktrace::day::Day;
use shocktrace::dec::Dec;
use shocktrace::event::{default_window_applies_to, EventWindow};
use shocktrace::identity::AssetKey;
use shocktrace::measure::daily::MeasureError;
use shocktrace::measure::divergence::account_divergence;
use shocktrace::measure::stats::ZScoreUnavailable;
use shocktrace::response::ResponseObservation;

fn sqrt(x: Dec) -> Option<Dec> {
    let f = Decimal::from_i128_with_scale(x.mantissa(), x.scale()).to_f64()?;
    if !f.is_finite() {
        return None;
    }
    let r = Decimal::from_f64(f.sqrt())?;
    Dec::from_parts(r.mantissa(), r.scale())
}

fn obs(asset: &str, day: &str, price: &str) -> ResponseObservation {
    ResponseObservation {
        asset_key: AssetKey::new(asset),
        day: Day::parse(day).unwrap(),
        price: Some(Dec::parse(price).unwrap()),
        volume: None,
    }
}

fn window(name: &str, start: &str, end: &str) -> EventWindow {
    EventWindow {
        name: name.into(),
        start: Day::parse(start).unwrap(),
        end: Day::parse(end).unwrap(),
        applies_to: default_window_applies_to(),
    }
}

#[test]
fn aligned_divergence_and_z_score() {
    let a = vec![
        obs("A", "2026-01-01", "100"),
        obs("A", "2026-01-02", "102"),
        obs("A", "2026-01-03", "106.08"),
        obs("A", "2026-01-04", "108.2016"),
        obs("A", "2026-01-05", "112.529664"),
        obs("A", "2026-01-06", "123.7826304"),
    ];
    let b = vec![
        obs("B", "2026-01-01", "50"),
        obs("B", "2026-01-02", "50.5"),
        obs("B", "2026-01-03", "51.005"),
        obs("B", "2026-01-04", "51.51505"),
        obs("B", "2026-01-05", "52.0302005"),
        obs("B", "2026-01-06", "52.550502505"),
    ];
    let baseline = window("baseline", "2026-01-02", "2026-01-05");
    let event = window("event", "2026-01-06", "2026-01-06");
    let summary = account_divergence(a, b, &event, &baseline, &sqrt).unwrap();
    assert_eq!(summary.matched_days, 5);
    assert_eq!(summary.event_day.unwrap().to_text(), "2026-01-06");
    assert_eq!(summary.event_divergence, Some(Dec::parse("0.09").unwrap()));
    assert_eq!(summary.baseline_n, 4);
    assert_eq!(summary.baseline_mean, Some(Dec::parse("0.02").unwrap()));
    assert_eq!(summary.baseline_std, Some(Dec::parse("0.01").unwrap()));
    assert_eq!(summary.z_score, Some(Dec::parse("7").unwrap()));
}

#[test]
fn missing_day_one_side_is_excluded_not_zero_filled() {
    let a = vec![
        obs("A", "2026-01-01", "100"),
        obs("A", "2026-01-02", "101"),
        obs("A", "2026-01-03", "102"),
    ];
    let b = vec![obs("B", "2026-01-01", "50"), obs("B", "2026-01-02", "50.5")];
    let baseline = window("baseline", "2026-01-02", "2026-01-02");
    let event = window("event", "2026-01-03", "2026-01-03");
    let summary = account_divergence(a, b, &event, &baseline, &sqrt).unwrap();
    assert_eq!(summary.matched_days, 1);
    assert!(summary.event_divergence.is_none());
    assert_eq!(summary.unavailable_reason, Some(ZScoreUnavailable::NoEventValue));
}

#[test]
fn rejects_duplicate_date_on_either_side() {
    let a = vec![obs("A", "2026-01-01", "100"), obs("A", "2026-01-01", "101")];
    let b = vec![obs("B", "2026-01-01", "50")];
    let baseline = window("baseline", "2026-01-01", "2026-01-01");
    let event = window("event", "2026-01-01", "2026-01-01");
    let err = account_divergence(a, b, &event, &baseline, &sqrt).unwrap_err();
    assert!(matches!(err, MeasureError::DuplicateObservation { .. }));
}
