use shocktrace::day::Day;
use shocktrace::dec::Dec;
use shocktrace::identity::AssetKey;
use shocktrace::measure::daily::MeasureError;
use shocktrace::measure::horizon::cumulative_return_from_event;
use shocktrace::response::ResponseObservation;

fn obs(day: &str, price: Option<&str>) -> ResponseObservation {
    ResponseObservation {
        asset_key: AssetKey::new("GC"),
        day: Day::parse(day).unwrap(),
        price: price.map(|s| Dec::parse(s).unwrap()),
        volume: None,
    }
}

fn d(day: &str) -> Day {
    Day::parse(day).unwrap()
}

#[test]
fn horizons_use_observed_sessions_not_calendar_days() {
    let series = vec![
        obs("2026-01-01", Some("100")),
        obs("2026-01-02", None),
        obs("2026-01-03", Some("110")),
        obs("2026-01-06", Some("121")),
    ];
    let result = cumulative_return_from_event(series, d("2026-01-01"), &vec![1, 2, 3]).unwrap();
    assert_eq!(result.anchor_day, Some(d("2026-01-01")));
    assert_eq!(result.horizons[0].day, Some(d("2026-01-03")));
    assert_eq!(result.horizons[0].cumulative_return, Some(Dec::parse("0.1").unwrap()));
    assert_eq!(result.horizons[1].day, Some(d("2026-01-06")));
    assert_eq!(result.horizons[1].cumulative_return, Some(Dec::parse("0.21").unwrap()));
    assert_eq!(result.horizons[2].day, None);
    assert!(result.horizons[2].cumulative_return.is_none());
}

#[test]
fn anchor_falls_back_to_last_priced_day_on_or_before_event_start() {
    let series = vec![obs("2026-01-01", Some("100")), obs("2026-01-03", Some("110"))];
    let result = cumulative_return_from_event(series, d("2026-01-02"), &vec![1]).unwrap();
    assert_eq!(result.anchor_day, Some(d("2026-01-01")));
    assert_eq!(result.horizons[0].day, Some(d("2026-01-03")));
    assert_eq!(result.horizons[0].cumulative_return, Some(Dec::parse("0.1").unwrap()));
}

#[test]
fn no_anchor_yields_all_horizons_none() {
    let series = vec![obs("2026-06-01", Some("100"))];
    let result = cumulative_return_from_event(series, d("2026-01-01"), &vec![1, 3, 5, 20]).unwrap();
    assert!(result.anchor_day.is_none());
    assert!(result.horizons.iter().all(|h| h.cumulative_return.is_none()));
    assert!(result.horizons.iter().all(|h| h.day.is_none()));
}

#[test]
fn missing_horizon_is_none_not_zero() {
    let series = vec![obs("2026-01-01", Some("100")), obs("2026-01-02", Some("101"))];
    let result = cumulative_return_from_event(series, d("2026-01-01"), &vec![1, 5, 20]).unwrap();
    assert!(result.horizons[0].cumulative_return.is_some());
    assert!(result.horizons[1].cumulative_return.is_none());
    assert!(result.horizons[2].cumulative_return.is_none());
}

#[test]
fn horizon_rejects_duplicate_day() {
    let series = vec![obs("2026-01-01", Some("100")), obs("2026-01-01", Some("101"))];
    let err = cumulative_return_from_event(series, d("2026-01-01"), &vec![1]).unwrap_err();
    assert!(matches!(err, MeasureError::DuplicateObservation { .. }));
}
