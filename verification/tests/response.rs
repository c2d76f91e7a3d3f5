use shocktrace::day::Day;
use shocktrace::dec::Dec;
use shocktrace::event::{default_window_applies_to, EventWindow, SessionCalendar};
use shocktrace::identity::AssetKey;
use shocktrace::response::{account_market_response, ResponseError, ResponseObservation};

fn obs(day: &str, price: Option<&str>, volume: Option<&str>) -> ResponseObservation {
    ResponseObservation {
        asset_key: AssetKey::new("GC"),
        day: Day::parse(day).unwrap(),
        price: price.map(|s| Dec::parse(s).unwrap()),
        volume: volume.map(|s| Dec::parse(s).unwrap()),
    }
}

fn window() -> EventWindow {
    EventWindow {
        name: "event".into(),
        start: Day::parse("2026-06-12").unwrap(),
        end: Day::parse("2026-06-14").unwrap(),
        applies_to: default_window_applies_to(),
    }
}

#[test]
fn price_return_and_volume_ratio() {
    let series = vec![
        obs("2026-06-12", Some("100"), Some("10")),
        obs("2026-06-13", Some("110"), Some("30")),
        obs("2026-06-14", Some("121"), Some("20")),
    ];
    let baseline = vec![obs("2026-01-01", Some("90"), Some("10")), obs("2026-01-02", Some("91"), Some("10"))];
    let s = account_market_response(series, &window(), &baseline, SessionCalendar::Continuous).unwrap();
    assert_eq!(s.price_return.unwrap(), Dec::parse("0.21").unwrap());
    assert_eq!(s.window_days, 3);
    assert_eq!(s.window_median_volume.unwrap(), Dec::from_int(20));
    assert_eq!(s.baseline_median_volume.unwrap(), Dec::from_int(10));
    assert_eq!(s.baseline_normalized_volume.unwrap(), Dec::parse("2").unwrap());
}

#[test]
fn exchange_sessions_denominator_skips_weekend() {
    let series = vec![obs("2026-06-12", Some("100"), Some("10"))];
    let s = account_market_response(series, &window(), &vec![], SessionCalendar::ExchangeSessions).unwrap();
    assert_eq!(s.window_days, 1);
    assert_eq!(s.observed_days, 1);
}

#[test]
fn missing_prices_stay_none_not_zero() {
    let series = vec![obs("2026-06-12", None, Some("1")), obs("2026-06-13", None, Some("2"))];
    let s = account_market_response(series, &window(), &vec![], SessionCalendar::Continuous).unwrap();
    assert!(s.price_return.is_none());
    assert!(s.first_price.is_none());
    assert!(s.baseline_normalized_volume.is_none());
}

#[test]
fn response_rejects_duplicate_day() {
    let series = vec![obs("2026-06-12", Some("1"), None), obs("2026-06-12", Some("2"), None)];
    let err = account_market_response(series, &window(), &vec![], SessionCalendar::Continuous).unwrap_err();
    assert!(matches!(err, ResponseError::DuplicateObservation { .. }));
}

#[test]
fn response_rejects_mixed_assets() {
    let mut series = vec![obs("2026-06-12", Some("1"), None), obs("2026-06-13", Some("2"), None)];
    series[1].asset_key = AssetKey::new("OTHER");
    let err = account_market_response(series, &window(), &vec![], SessionCalendar::Continuous).unwrap_err();
    assert!(matches!(err, ResponseError::MixedAssets { .. }));
}

#[test]
fn empty_response_series_is_an_error() {
    let err = account_market_response(vec![], &window(), &vec![], SessionCalendar::Continuous).unwrap_err();
    assert!(matches!(err, ResponseError::EmptySeries(_)));
}
