use shocktrace::day::Day;
use shocktrace::dec::Dec;
use shocktrace::identity::AssetKey;
use shocktrace::ingest::reference_returns::ReferenceReturnObservation;
use shocktrace::measure::response_gap::account_response_gap;

fn reference(value: &str) -> ReferenceReturnObservation {
    ReferenceReturnObservation {
        reference_key: "REF".into(),
        asset_key: AssetKey::new("TOKEN"),
        day: Day::parse("2026-07-08").unwrap(),
        reference_return: Dec::parse(value).unwrap(),
        source_label: "fixture".into(),
        source_url: "https://example.test".into(),
        cutoff: "fixture close".into(),
    }
}

#[test]
fn gap_is_token_minus_reference() {
    let summary = account_response_gap(reference("0.044"), Some(Dec::parse("0.0389").unwrap()));
    assert_eq!(summary.response_gap, Some(Dec::parse("-0.0051").unwrap()));
    assert_eq!(summary.direction_match, Some(true));
}

#[test]
fn missing_token_return_stays_missing() {
    let summary = account_response_gap(reference("-0.0052"), None);
    assert!(summary.response_gap.is_none());
    assert!(summary.direction_match.is_none());
}

#[test]
fn opposite_signs_do_not_match_direction() {
    let summary = account_response_gap(reference("-0.01"), Some(Dec::parse("0.02").unwrap()));
    assert_eq!(summary.direction_match, Some(false));
    assert_eq!(summary.response_gap, Some(Dec::parse("0.03").unwrap()));
}

#[test]
fn zero_return_leaves_direction_unavailable() {
    let summary = account_response_gap(reference("0"), Some(Dec::parse("0.02").unwrap()));
    assert_eq!(summary.direction_match, None);
}
