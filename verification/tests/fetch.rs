use shocktrace::day::Day;
use shocktrace::fetch::{
    exchange_day, exchange_zone, retry_after_failure, select_chart_rows, status_failure_text, urlencoding_minimal,
    RetryStep, FETCH_ATTEMPTS,
};
use shocktrace::text::contains_text;

fn day(s: &str) -> Option<Day> {
    Day::parse(s)
}

fn text(v: &[Option<&str>]) -> Vec<Option<String>> {
    v.iter().map(|x| x.map(|s| s.to_string())).collect()
}

#[test]
fn symbol_with_equals_sign_is_percent_encoded() {
    assert_eq!(urlencoding_minimal("CL=F"), "CL%3DF");
    assert_eq!(urlencoding_minimal("^GSPC"), "%5EGSPC");
    assert_eq!(urlencoding_minimal("a b/c"), "a%20b%2Fc");
}

#[test]
fn non_ascii_symbol_is_encoded_byte_by_byte() {
    assert_eq!(urlencoding_minimal("é"), "%C3%A9");
    assert_eq!(urlencoding_minimal(""), "");
}

#[test]
fn sessions_missing_price_or_volume_are_dropped_not_zero_filled() {
    let closes = text(&[Some("10.0000"), None, Some("12.5000"), Some("13.0000")]);
    let volumes = text(&[Some("100"), Some("200"), None, Some("400")]);
    let days = vec![day("2025-01-02"), day("2025-01-03"), day("2025-01-06"), day("2025-01-07")];
    let (rows, dropped) = select_chart_rows(&"GLD".to_string(), &closes, &volumes, &days).unwrap();
    assert_eq!(dropped, 2);
    assert_eq!(rows.len(), 2);
    assert_eq!(rows[0].asset_key, "GLD");
    assert_eq!(rows[0].day, Day::parse("2025-01-02").unwrap());
    assert_eq!(rows[0].price, "10.0000");
    assert_eq!(rows[0].volume, "100");
    assert_eq!(rows[1].day, Day::parse("2025-01-07").unwrap());
    assert_eq!(rows[1].price, "13.0000");
    assert_eq!(rows[1].volume, "400");
}

#[test]
fn sessions_beyond_the_value_lists_are_dropped() {
    let closes = text(&[Some("1.0000")]);
    let volumes = text(&[Some("5")]);
    let days = vec![day("2025-01-02"), day("2025-01-03")];
    let (rows, dropped) = select_chart_rows(&"CL".to_string(), &closes, &volumes, &days).unwrap();
    assert_eq!(rows.len(), 1);
    assert_eq!(dropped, 1);
}

#[test]
fn a_kept_session_without_a_day_is_refused() {
    let closes = text(&[Some("1.0000"), Some("2.0000")]);
    let volumes = text(&[Some("5"), Some("6")]);
    let days = vec![day("2025-01-02"), None];
    assert!(select_chart_rows(&"CL".to_string(), &closes, &volumes, &days).is_none());
    let volumes_missing = text(&[Some("5"), None]);
    assert!(select_chart_rows(&"CL".to_string(), &closes, &volumes_missing, &days).is_some());
}

#[test]
fn retries_wait_longer_each_time_and_stop_after_four_attempts() {
    let steps: Vec<RetryStep> = (0..FETCH_ATTEMPTS).map(retry_after_failure).collect();
    let waits: Vec<u64> = steps.iter().map(|s| s.wait_secs).collect();
    assert_eq!(waits, vec![5, 10, 15, 20]);
    let again: Vec<bool> = steps.iter().map(|s| s.try_again).collect();
    assert_eq!(again, vec![true, true, true, false]);
}

#[test]
fn status_failure_reads_http_code_and_text() {
    assert_eq!(status_failure_text(429, "Too Many Requests"), "HTTP 429: Too Many Requests");
}

#[test]
fn sessions_are_dated_in_the_exchange_zone() {
    // 2024-05-02T02:00:00Z is still May 1 in New York.
    let ts = 1714615200;
    let ny = exchange_day(ts, &Some("America/Chicago".to_string())).unwrap();
    assert_eq!(ny.to_text(), "2024-05-01");
    let utc = exchange_day(ts, &None).unwrap();
    assert_eq!(utc.to_text(), "2024-05-02");
    let unknown = exchange_day(ts, &Some("Not/AZone".to_string())).unwrap();
    assert_eq!(unknown.to_text(), "2024-05-02");
    let tokyo = exchange_day(1714600800, &Some("Asia/Tokyo".to_string())).unwrap();
    assert_eq!(tokyo.to_text(), "2024-05-02");
    assert_eq!(exchange_zone(&Some("America/Chicago".to_string())), "America/New_York");
}

#[test]
fn text_search_finds_runs_only() {
    assert!(contains_text("America/New_York", "America"));
    assert!(!contains_text("Ameri", "America"));
    assert!(contains_text("abc", ""));
    assert!(!contains_text("Europe/London", "America"));
}

#[test]
fn sessions_at_the_end_of_the_calendar_have_no_local_day() {
    let last = chrono::NaiveDateTime::MAX.and_utc().timestamp();
    assert!(exchange_day(last - 3600, &Some("Asia/Tokyo".to_string())).is_none());
    assert!(exchange_day(last - 3600, &None).is_some());
    let first = chrono::NaiveDateTime::MIN.and_utc().timestamp();
    assert!(exchange_day(first + 3600, &Some("America/New_York".to_string())).is_none());
}

#[test]
fn trimming_removes_unicode_white_space_only() {
    assert_eq!(shocktrace::text::trim_text("\u{3000} a b\t\n"), "a b");
    assert_eq!(shocktrace::text::trim_text("  "), "");
    assert_eq!(shocktrace::text::trim_text("x\u{200b}"), "x\u{200b}");
}
