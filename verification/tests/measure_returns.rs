use shocktrace::day::Day;
use shocktrace::dec::Dec;
use shocktrace::identity::AssetKey;
use shocktrace::measure::daily::{daily_returns, MeasureError};
use shocktrace::response::ResponseObservation;

fn obs(day: &str, price: Option<&str>) -> ResponseObservation {
    ResponseObservation {
        asset_key: AssetKey::new("GC"),
        day: Day::parse(day).unwrap(),
        price: price.map(|s| Dec::parse(s).unwrap()),
        volume: None,
    }
}

#[test]
fn missing_price_breaks_daily_return_chain() {
    let series = vec![
        obs("2026-01-01", Some("100")),
        obs("2026-01-02", None),
        obs("2026-01-03", Some("110")),
    ];
    assert!(daily_returns(series).unwrap().is_empty());
}

#[test]
fn absent_calendar_day_breaks_daily_return_chain() {
    let series = vec![obs("2026-01-01", Some("100")), obs("2026-01-03", Some("110"))];
    assert!(daily_returns(series).unwrap().is_empty());
}

#[test]
fn zero_prev_price_pair_is_skipped_not_error() {
    let series = vec![obs("2026-01-01", Some("0")), obs("2026-01-02", Some("10"))];
    assert!(daily_returns(series).unwrap().is_empty());
}

#[test]
fn returns_rejects_duplicate_day() {
    let series = vec![obs("2026-01-01", Some("100")), obs("2026-01-01", Some("101"))];
    let err = daily_returns(series).unwrap_err();
    assert!(matches!(err, MeasureError::DuplicateObservation { .. }));
}

#[test]
fn returns_rejects_mixed_assets() {
    let mut series = vec![obs("2026-01-01", Some("100")), obs("2026-01-02", Some("101"))];
    series[1].asset_key = AssetKey::new("OTHER");
    let err = daily_returns(series).unwrap_err();
    assert!(matches!(err, MeasureError::MixedAssets { .. }));
}

#[test]
fn rejects_empty_series() {
    let err = daily_returns(vec![]).unwrap_err();
    assert!(matches!(err, MeasureError::EmptySeries(_)));
}

#[test]
fn unsorted_input_is_sorted_before_pairing() {
    let series = vec![obs("2026-01-02", Some("110")), obs("2026-01-01", Some("100"))];
    let rets = daily_returns(series).unwrap();
    assert_eq!(rets.len(), 1);
    assert_eq!(rets[0].value, Dec::parse("0.1").unwrap());
}

#[test]
fn consecutive_days_give_one_return_each() {
    let series = vec![
        obs("2026-01-01", Some("100")),
        obs("2026-01-02", Some("110")),
        obs("2026-01-03", Some("99")),
    ];
    let rets = daily_returns(series).unwrap();
    assert_eq!(rets.len(), 2);
    assert_eq!(rets[1].day, Day::parse("2026-01-03").unwrap());
    assert_eq!(rets[1].prev_day, Day::parse("2026-01-02").unwrap());
    assert_eq!(rets[1].value, Dec::parse("-0.1").unwrap());
}
