use shocktrace::day::Day;
use shocktrace::dec::Dec;
use shocktrace::identity::AssetKey;
use shocktrace::measure::activity::account_activity_anomaly;
use shocktrace::measure::daily::MeasureError;
use shocktrace::response::ResponseObservation;

fn obs(day: &str, volume: Option<&str>) -> ResponseObservation {
    ResponseObservation {
        asset_key: AssetKey::new("GC"),
        day: Day::parse(day).unwrap(),
        price: None,
        volume: volume.map(|s| Dec::parse(s).unwrap()),
    }
}

fn run(window: Vec<ResponseObservation>, baseline: Vec<ResponseObservation>) -> Result<shocktrace::measure::activity::ActivityAnomaly, MeasureError> {
    account_activity_anomaly(AssetKey::new("GC"), "event".into(), "baseline".into(), window, baseline)
}

#[test]
fn even_n_uses_standard_median_not_upper_median() {
    let window = vec![
        obs("2026-01-01", Some("40")),
        obs("2026-01-02", Some("10")),
        obs("2026-01-03", Some("30")),
        obs("2026-01-04", Some("20")),
    ];
    let baseline = vec![obs("2025-01-01", Some("5")), obs("2025-01-02", Some("5"))];
    let a = run(window, baseline).unwrap();
    assert_eq!(a.window_median_volume, Some(Dec::parse("25").unwrap()));
    assert_ne!(a.window_median_volume, Some(Dec::parse("30").unwrap()));
}

#[test]
fn ratio_of_medians() {
    let window = vec![obs("2026-01-01", Some("20")), obs("2026-01-02", Some("30"))];
    let baseline = vec![obs("2025-01-01", Some("5")), obs("2025-01-02", Some("15"))];
    let a = run(window, baseline).unwrap();
    assert_eq!(a.window_median_volume, Some(Dec::parse("25").unwrap()));
    assert_eq!(a.baseline_median_volume, Some(Dec::parse("10").unwrap()));
    assert_eq!(a.ratio, Some(Dec::parse("2.5").unwrap()));
}

#[test]
fn missing_volume_is_none_not_zero() {
    let window = vec![obs("2026-01-01", None), obs("2026-01-02", None)];
    let baseline = vec![obs("2025-01-01", Some("5"))];
    let a = run(window, baseline).unwrap();
    assert!(a.window_median_volume.is_none());
    assert!(a.ratio.is_none());
}

#[test]
fn zero_baseline_median_yields_none_ratio() {
    let window = vec![obs("2026-01-01", Some("10"))];
    let baseline = vec![obs("2025-01-01", Some("0")), obs("2025-01-02", Some("0"))];
    let a = run(window, baseline).unwrap();
    assert_eq!(a.baseline_median_volume, Some(Dec::zero()));
    assert!(a.ratio.is_none());
}

#[test]
fn activity_rejects_duplicate_day() {
    let window = vec![obs("2026-01-01", Some("10")), obs("2026-01-01", Some("20"))];
    let err = run(window, vec![]).unwrap_err();
    assert!(matches!(err, MeasureError::DuplicateObservation { .. }));
}

#[test]
fn empty_slices_are_not_errors() {
    let a = run(vec![], vec![]).unwrap();
    assert!(a.window_median_volume.is_none());
    assert!(a.baseline_median_volume.is_none());
    assert!(a.ratio.is_none());
}
