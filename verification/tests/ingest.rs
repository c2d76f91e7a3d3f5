use shocktrace::dec::Dec;
use shocktrace::ingest::daily_flows::{parse_flow_rows, DailyFlowRow, IngestError};
use shocktrace::ingest::daily_response::{parse_response_rows, DailyResponseRow, ResponseIngestError};
use shocktrace::ingest::daily_supply::{parse_supply_rows, supply_on, DailySupplyRow, SupplyIngestError};
use shocktrace::ingest::reference_returns::{parse_reference_returns, RawReferenceReturn, ReferenceReturnIngestError};
use shocktrace::day::Day;
use shocktrace::identity::AssetKey;

fn reference_row(day: &str) -> RawReferenceReturn {
    RawReferenceReturn {
        reference_key: "GOLD_SPOT".into(),
        asset_key: "PAXG".into(),
        day: day.into(),
        reference_return: "-0.0052".into(),
        source_label: "Reuters".into(),
        source_url: "https://example.test".into(),
        cutoff: "source-reported close".into(),
    }
}

fn path() -> String {
    "reference_returns.csv".to_string()
}

#[test]
fn loads_frozen_reference_return() {
    let rows = parse_reference_returns(&vec![reference_row("2026-07-08")], &path()).unwrap();
    assert_eq!(rows.len(), 1);
    assert_eq!(rows[0].reference_key, "GOLD_SPOT");
    assert_eq!(rows[0].reference_return, Dec::parse("-0.0052").unwrap());
}

#[test]
fn rejects_duplicate_reference_row() {
    let err = parse_reference_returns(&vec![reference_row("2026-07-08"), reference_row("2026-07-08")], &path()).unwrap_err();
    let ReferenceReturnIngestError::Parse { message, .. } = err;
    assert!(message.contains("duplicate reference"));
    assert_eq!(message, "row 3: duplicate reference 'GOLD_SPOT' for asset 'PAXG' on 2026-07-08");
}

#[test]
fn reference_fields_are_trimmed_and_required() {
    let mut row = reference_row(" 2026-07-08 ");
    row.reference_key = "  GOLD_SPOT ".into();
    let rows = parse_reference_returns(&vec![row], &path()).unwrap();
    assert_eq!(rows[0].reference_key, "GOLD_SPOT");
    let mut empty = reference_row("2026-07-08");
    empty.cutoff = "   ".into();
    let ReferenceReturnIngestError::Parse { message, .. } = parse_reference_returns(&vec![empty], &path()).unwrap_err();
    assert_eq!(message, "row 2: empty cutoff");
}

#[test]
fn flow_rows_parse_and_reject_negative_quantities() {
    let ok = vec![DailyFlowRow { route_id: "r".into(), day: "2026-06-12".into(), gross_a_to_b: " 10.5 ".into(), gross_b_to_a: "0".into() }];
    let rows = parse_flow_rows(&ok, &"f.csv".to_string()).unwrap();
    assert_eq!(rows[0].gross_a_to_b.as_decimal(), Dec::parse("10.5").unwrap());
    let bad = vec![DailyFlowRow { route_id: "r".into(), day: "2026-06-12".into(), gross_a_to_b: "-1".into(), gross_b_to_a: "0".into() }];
    let IngestError::Parse { path, message } = parse_flow_rows(&bad, &"f.csv".to_string()).unwrap_err();
    assert_eq!(path, "f.csv");
    assert_eq!(message, "row 2: quantity must be non-negative, got -1");
}

#[test]
fn flow_rows_reject_bad_days() {
    let bad = vec![DailyFlowRow { route_id: "r".into(), day: "2026-13-40".into(), gross_a_to_b: "1".into(), gross_b_to_a: "0".into() }];
    let IngestError::Parse { message, .. } = parse_flow_rows(&bad, &"f.csv".to_string()).unwrap_err();
    assert!(message.starts_with("row 2: invalid day '2026-13-40': "));
}

#[test]
fn response_rows_keep_blank_values_missing() {
    let rows = vec![DailyResponseRow { asset_key: "GC".into(), day: "2026-06-12".into(), price: Some("  ".into()), volume: None }];
    let parsed = parse_response_rows(&rows, &"r.csv".to_string()).unwrap();
    assert!(parsed[0].price.is_none());
    assert!(parsed[0].volume.is_none());
    let bad = vec![DailyResponseRow { asset_key: "GC".into(), day: "2026-06-12".into(), price: Some("abc".into()), volume: None }];
    let ResponseIngestError::Parse { message, .. } = parse_response_rows(&bad, &"r.csv".to_string()).unwrap_err();
    assert!(message.starts_with("row 2: invalid price 'abc': "));
}

#[test]
fn supply_lookup_finds_the_first_matching_row() {
    let rows = vec![
        DailySupplyRow { asset_key: "A".into(), day: "2026-06-11".into(), supply: "1000.0".into() },
        DailySupplyRow { asset_key: "A".into(), day: "2026-06-11".into(), supply: "5.0".into() },
    ];
    let parsed = parse_supply_rows(&rows, &"s.csv".to_string()).unwrap();
    let day = Day::parse("2026-06-11").unwrap();
    assert_eq!(supply_on(&parsed, &AssetKey::new("A"), day).unwrap(), Dec::from_int(1000));
    let err = supply_on(&parsed, &AssetKey::new("B"), day).unwrap_err();
    assert_eq!(err.message(), "no supply row for asset 'B' on 2026-06-11");
    assert!(matches!(err, SupplyIngestError::MissingSnapshot { .. }));
}
