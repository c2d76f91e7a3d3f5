//! The computing parts of the download-and-freeze helper: encoding a symbol
//! for a URL path, and turning a chart's per-session values into daily rows,
//! dropping sessions with a missing price or volume (missing stays missing).
use crate::day::{first_day_number, last_day_number, Day};
use chrono::{Datelike, Offset, TimeZone};
use crate::text::{contains_text, count_text, decimal_digits, has_text};
use vstd::prelude::*;
use vstd::string::*;

verus! {

/// Whether a character is kept as it is in a URL path.
pub open spec fn unreserved(c: char) -> bool {
    ('A' <= c && c <= 'Z') || ('a' <= c && c <= 'z') || ('0' <= c && c <= '9') || c == '-' || c
        == '_' || c == '.' || c == '~'
}

/// The upper-case hexadecimal digit of `d < 16`.
pub open spec fn hex_upper(d: int) -> char {
    if d < 10 {
        ('0' as int + d) as char
    } else {
        ('A' as int + d - 10) as char
    }
}

/// `%XX` for one byte.
pub open spec fn percent_byte(b: int) -> Seq<char> {
    seq!['%', hex_upper(b / 16), hex_upper(b % 16)]
}

/// The UTF-8 bytes of a character.
pub open spec fn utf8_of(c: char) -> Seq<int> {
    let n = c as int;
    if n < 0x80 {
        seq![n]
    } else if n < 0x800 {
        seq![0xC0 + n / 64, 0x80 + n % 64]
    } else if n < 0x10000 {
        seq![0xE0 + n / 4096, 0x80 + (n / 64) % 64, 0x80 + n % 64]
    } else {
        seq![0xF0 + n / 262144, 0x80 + (n / 4096) % 64, 0x80 + (n / 64) % 64, 0x80 + n % 64]
    }
}

/// Percent-encoding of a list of bytes.
pub open spec fn percent_bytes(bs: Seq<int>) -> Seq<char>
    decreases bs.len(),
{
    if bs.len() == 0 {
        Seq::empty()
    } else {
        percent_bytes(bs.drop_last()) + percent_byte(bs.last())
    }
}

/// A symbol encoded for a URL path: unreserved characters kept, every other
/// byte of the UTF-8 text written as `%XX`.
pub open spec fn url_path_text(s: Seq<char>) -> Seq<char>
    decreases s.len(),
{
    if s.len() == 0 {
        Seq::empty()
    } else {
        url_path_text(s.drop_last()) + if unreserved(s.last()) {
            seq![s.last()]
        } else {
            percent_bytes(utf8_of(s.last()))
        }
    }
}

fn hex_upper_str(d: u32) -> (r: &'static str)
    requires
        d < 16,
    ensures
        r@ == seq![hex_upper(d as int)],
{
    proof {
        reveal_strlit("0");
        reveal_strlit("1");
        reveal_strlit("2");
        reveal_strlit("3");
        reveal_strlit("4");
        reveal_strlit("5");
        reveal_strlit("6");
        reveal_strlit("7");
        reveal_strlit("8");
        reveal_strlit("9");
        reveal_strlit("A");
        reveal_strlit("B");
        reveal_strlit("C");
        reveal_strlit("D");
        reveal_strlit("E");
        reveal_strlit("F");
    }
    if d == 0 {
        "0"
    } else if d == 1 {
        "1"
    } else if d == 2 {
        "2"
    } else if d == 3 {
        "3"
    } else if d == 4 {
        "4"
    } else if d == 5 {
        "5"
    } else if d == 6 {
        "6"
    } else if d == 7 {
        "7"
    } else if d == 8 {
        "8"
    } else if d == 9 {
        "9"
    } else if d == 10 {
        "A"
    } else if d == 11 {
        "B"
    } else if d == 12 {
        "C"
    } else if d == 13 {
        "D"
    } else if d == 14 {
        "E"
    } else {
        "F"
    }
}

fn percent_text(b: u32) -> (r: String)
    requires
        b < 256,
    ensures
        r@ == percent_byte(b as int),
{
    proof {
        reveal_strlit("%");
    }
    let r = String::from_str("%").concat(hex_upper_str(b / 16)).concat(hex_upper_str(b % 16));
    proof {
        assert(r@ =~= percent_byte(b as int));
    }
    r
}

fn encode_char(s: &str, i: usize, c: char) -> (r: String)
    requires
        i < s@.len(),
        i < usize::MAX,
        s@[i as int] == c,
    ensures
        r@ == (if unreserved(c) {
            seq![c]
        } else {
            percent_bytes(utf8_of(c))
        }),
{
    if ('A' <= c && c <= 'Z') || ('a' <= c && c <= 'z') || ('0' <= c && c <= '9') || c == '-' || c
        == '_' || c == '.' || c == '~' {
        let piece = s.substring_char(i, i + 1);
        proof {
            assert(piece@ =~= seq![c]);
        }
        return String::from_str(piece);
    }
    let n = c as u32;
    proof {
        assert(n == c as int);
    }
    let r = if n < 0x80 {
        percent_text(n)
    } else if n < 0x800 {
        percent_text(0xC0 + n / 64).concat(percent_text(0x80 + n % 64).as_str())
    } else if n < 0x10000 {
        percent_text(0xE0 + n / 4096).concat(percent_text(0x80 + (n / 64) % 64).as_str()).concat(
            percent_text(0x80 + n % 64).as_str(),
        )
    } else {
        percent_text(0xF0 + n / 262144).concat(percent_text(0x80 + (n / 4096) % 64).as_str()).concat(
            percent_text(0x80 + (n / 64) % 64).as_str(),
        ).concat(percent_text(0x80 + n % 64).as_str())
    };
    proof {
        let bs = utf8_of(c);
        let e = Seq::<int>::empty();
        assert(percent_bytes(e) == Seq::<char>::empty());
        if n < 0x80 {
            lemma_percent_push(e, n as int);
            assert(bs =~= e.push(n as int));
            assert(percent_bytes(bs) =~= percent_byte(n as int));
        } else if n < 0x800 {
            let (b0, b1) = (0xC0 + n / 64, 0x80 + n % 64);
            lemma_percent_push(e, b0);
            lemma_percent_push(e.push(b0), b1);
            assert(bs =~= e.push(b0).push(b1));
            assert(percent_bytes(bs) =~= percent_byte(b0) + percent_byte(b1));
        } else if n < 0x10000 {
            let (b0, b1, b2) = (0xE0 + n / 4096, 0x80 + (n / 64) % 64, 0x80 + n % 64);
            lemma_percent_push(e, b0);
            lemma_percent_push(e.push(b0), b1);
            lemma_percent_push(e.push(b0).push(b1), b2);
            assert(bs =~= e.push(b0).push(b1).push(b2));
            assert(percent_bytes(bs) =~= percent_byte(b0) + percent_byte(b1) + percent_byte(b2));
        } else {
            let (b0, b1, b2, b3) = (
                0xF0 + n / 262144,
                0x80 + (n / 4096) % 64,
                0x80 + (n / 64) % 64,
                0x80 + n % 64,
            );
            lemma_percent_push(e, b0);
            lemma_percent_push(e.push(b0), b1);
            lemma_percent_push(e.push(b0).push(b1), b2);
            lemma_percent_push(e.push(b0).push(b1).push(b2), b3);
            assert(bs =~= e.push(b0).push(b1).push(b2).push(b3));
            assert(percent_bytes(bs) =~= percent_byte(b0) + percent_byte(b1) + percent_byte(b2)
                + percent_byte(b3));
        }
    }
    r
}

proof fn lemma_percent_push(bs: Seq<int>, b: int)
    ensures
        percent_bytes(bs.push(b)) == percent_bytes(bs) + percent_byte(b),
{
    assert(bs.push(b).drop_last() =~= bs);
}

/// Minimal query-path encoding of a symbol (`CL=F` becomes `CL%3DF`).
pub fn urlencoding_minimal(symbol: &str) -> (r: String)
    ensures
        r@ == url_path_text(symbol@),
{
    let chars = crate::text::chars_of(symbol);
    let mut out = String::new();
    let mut i: usize = 0;
    while i < chars.len()
        invariant
            i <= chars@.len(),
            chars@ == symbol@,
            out@ == url_path_text(symbol@.take(i as int)),
        decreases chars.len() - i,
    {
        proof {
            assert(symbol@.take(i + 1).drop_last() =~= symbol@.take(i as int));
        }
        out = out.concat(encode_char(symbol, i, chars[i]).as_str());
        i += 1;
    }
    proof {
        assert(symbol@.take(symbol@.len() as int) =~= symbol@);
    }
    out
}

/// A symbol made only of unreserved characters is its own URL-path text.
pub proof fn law_unreserved_symbol_unchanged(s: Seq<char>)
    requires
        forall|i: int| 0 <= i < s.len() ==> unreserved(#[trigger] s[i]),
    ensures
        url_path_text(s) == s,
    decreases s.len(),
{
    if s.len() > 0 {
        let front = s.drop_last();
        assert forall|i: int| 0 <= i < front.len() implies unreserved(#[trigger] front[i]) by {
            assert(front[i] == s[i]);
        }
        law_unreserved_symbol_unchanged(front);
        assert(unreserved(s[s.len() - 1]));
        assert(s =~= front.push(s.last()));
    }
}

/// Number of attempts at fetching one chart.
pub const FETCH_ATTEMPTS: u32 = 4;

/// What to do after a failed fetch attempt: wait, then try again or report.
#[derive(Debug, Clone, Copy, PartialEq, Eq)]
pub struct RetryStep {
    /// Seconds to wait before going on.
    pub wait_secs: u64,
    /// Whether another attempt follows the wait; if not, the last failure is reported.
    pub try_again: bool,
}

/// The step after failed attempt `attempt` (counted from zero): a wait of
/// `5 * (attempt + 1)` seconds, after every failure including the last, and
/// another attempt while fewer than `FETCH_ATTEMPTS` have been made.
pub fn retry_after_failure(attempt: u32) -> (r: RetryStep)
    requires
        attempt < FETCH_ATTEMPTS,
    ensures
        r.wait_secs == 5 * (attempt + 1),
        r.try_again == (attempt + 1 < FETCH_ATTEMPTS),
{
    RetryStep { wait_secs: 5 * (attempt as u64 + 1), try_again: attempt + 1 < FETCH_ATTEMPTS }
}

/// The text of a failure with HTTP status `code`: `HTTP <code>: <status text>`.
pub fn status_failure_text(code: u16, status_text: &str) -> (r: String)
    ensures
        r@ == "HTTP "@ + decimal_digits(code as nat) + ": "@ + status_text@,
{
    proof {
        reveal_strlit("HTTP ");
        reveal_strlit(": ");
    }
    String::from_str("HTTP ").concat(count_text(code as usize).as_str()).concat(": ").concat(status_text)
}

/// Whether the time-zone database of `chrono_tz` knows the zone `name`.
pub uninterp spec fn zone_known(name: Seq<char>) -> bool;

/// Parses a zone name as `chrono_tz::Tz`; whether that succeeds.
#[verifier::external_body]
fn zone_name_known(name: &str) -> (r: bool)
    ensures
        r == zone_known(name@),
{
    name.parse::<chrono_tz::Tz>().is_ok()
}

/// The number (days from the common era, `chrono`'s `num_days_from_ce`) of
/// the local date in zone `name` of the instant `ts` seconds after the Unix
/// epoch; none where `chrono` has no such instant or date.
pub uninterp spec fn zone_day_of(ts: int, name: Seq<char>) -> Option<int>;

/// Calls `chrono::Utc::timestamp_opt`, `with_timezone` to the
/// `chrono_tz::Tz` named `name`, and `num_days_from_ce` of the local date,
/// the local time taken by the checked `checked_add_offset` (the local time
/// `date_naive` would take, without its panic at the ends of `chrono`'s range).
#[verifier::external_body]
fn zone_day(ts: i64, name: &str) -> (r: Option<i32>)
    requires
        zone_known(name@),
    ensures
        r is Some <==> zone_day_of(ts as int, name@) is Some,
        r is Some ==> r.unwrap() == zone_day_of(ts as int, name@).unwrap(),
{
    let tz: chrono_tz::Tz = name.parse().ok()?;
    let t = chrono::Utc.timestamp_opt(ts, 0).single()?.with_timezone(&tz);
    t.naive_utc().checked_add_offset(t.offset().fix()).map(|n| n.date().num_days_from_ce())
}

/// The zone a chart's exchange time-zone name selects: New York for a name
/// that mentions `America`, the named zone where the database knows it, UTC
/// otherwise.
pub open spec fn chosen_zone(name: Option<Seq<char>>) -> Seq<char> {
    match name {
        None => "UTC"@,
        Some(n) => if has_text(n, "America"@) {
            "America/New_York"@
        } else if zone_known(n) {
            n
        } else {
            "UTC"@
        },
    }
}

/// The view of an optional text.
pub open spec fn opt_text(o: Option<String>) -> Option<Seq<char>> {
    match o {
        Some(s) => Some(s@),
        None => None,
    }
}

/// The zone in which a chart's sessions are dated, from the exchange's
/// time-zone name.
pub fn exchange_zone(name: &Option<String>) -> (r: String)
    ensures
        r@ == chosen_zone(opt_text(*name)),
{
    proof {
        reveal_strlit("America");
        reveal_strlit("America/New_York");
        reveal_strlit("UTC");
    }
    match name {
        None => String::from_str("UTC"),
        Some(n) => if contains_text(n.as_str(), "America") {
            String::from_str("America/New_York")
        } else if zone_name_known(n.as_str()) {
            n.clone()
        } else {
            String::from_str("UTC")
        },
    }
}

/// The exchange-local day of a session that opened `ts` seconds after the
/// Unix epoch, dated in the zone that the exchange's time-zone name selects;
/// none where that zone or that date is unknown.
pub fn exchange_day(ts: i64, zone_name: &Option<String>) -> (r: Option<Day>)
    ensures
        ({
            let z = chosen_zone(opt_text(*zone_name));
            let d = zone_day_of(ts as int, z);
            &&& r is Some <==> (zone_known(z) && d is Some && first_day_number() <= d.unwrap()
                <= last_day_number())
            &&& r is Some ==> r.unwrap().num() == d.unwrap()
        }),
{
    let zone = exchange_zone(zone_name);
    if !zone_name_known(zone.as_str()) {
        return None;
    }
    match zone_day(ts, zone.as_str()) {
        Some(n) => Day::from_number(n),
        None => None,
    }
}

/// One daily row of a frozen response file.
#[derive(Debug, PartialEq, Eq)]
pub struct ChartRow {
    pub asset_key: String,
    pub day: Day,
    pub price: String,
    pub volume: String,
}

/// The value at `i`, when there is one.
pub open spec fn value_at(v: Seq<Option<String>>, i: int) -> Option<String> {
    if 0 <= i < v.len() {
        v[i]
    } else {
        None
    }
}

/// Whether session `i` has both a price and a volume.
pub open spec fn session_complete(closes: Seq<Option<String>>, volumes: Seq<Option<String>>, i: int) -> bool {
    value_at(closes, i) is Some && value_at(volumes, i) is Some
}

/// The sessions among the first `n` that have both a price and a volume, in
/// session order.
pub open spec fn complete_sessions(closes: Seq<Option<String>>, volumes: Seq<Option<String>>, n: int) -> Seq<
    int,
>
    decreases n,
{
    if n <= 0 {
        Seq::empty()
    } else {
        complete_sessions(closes, volumes, n - 1) + if session_complete(closes, volumes, n - 1) {
            seq![n - 1]
        } else {
            Seq::empty()
        }
    }
}

/// `row` is the row of session `i`: the asset, the session's day, price and volume.
pub open spec fn row_of_session(
    row: ChartRow,
    asset_key: Seq<char>,
    closes: Seq<Option<String>>,
    volumes: Seq<Option<String>>,
    days: Seq<Option<Day>>,
    i: int,
) -> bool {
    &&& row.asset_key@ == asset_key
    &&& days[i] == Some(row.day)
    &&& row.price@ == value_at(closes, i).unwrap()@
    &&& row.volume@ == value_at(volumes, i).unwrap()@
}

/// The rows of the sessions that have a price and a volume, in session
/// order, with the number of sessions dropped; `None` when a kept session
/// has no day. `days[i]` is the exchange-local day of session `i`.
pub fn select_chart_rows(
    asset_key: &String,
    closes: &Vec<Option<String>>,
    volumes: &Vec<Option<String>>,
    days: &Vec<Option<Day>>,
) -> (r: Option<(Vec<ChartRow>, usize)>)
    ensures
        r is None <==> exists|i: int|
            0 <= i < days@.len() && session_complete(closes@, volumes@, i) && #[trigger] days@[i] is None,
        r matches Some((rows, dropped)) ==> {
            let kept = complete_sessions(closes@, volumes@, days@.len() as int);
            &&& rows@.len() == kept.len()
            &&& dropped == days@.len() - kept.len()
            &&& forall|k: int|
                0 <= k < rows@.len() ==> row_of_session(
                    #[trigger] rows@[k],
                    asset_key@,
                    closes@,
                    volumes@,
                    days@,
                    kept[k],
                )
        },
{
    let mut rows: Vec<ChartRow> = Vec::new();
    let mut dropped: usize = 0;
    let mut i: usize = 0;
    while i < days.len()
        invariant
            i <= days@.len(),
            rows@.len() == complete_sessions(closes@, volumes@, i as int).len(),
            dropped == i - complete_sessions(closes@, volumes@, i as int).len(),
            forall|k: int|
                0 <= k < rows@.len() ==> row_of_session(
                    #[trigger] rows@[k],
                    asset_key@,
                    closes@,
                    volumes@,
                    days@,
                    complete_sessions(closes@, volumes@, i as int)[k],
                ),
            forall|j: int|
                0 <= j < i ==> !(session_complete(closes@, volumes@, j) && #[trigger] days@[j] is None),
        decreases days.len() - i,
    {
        let ghost before = complete_sessions(closes@, volumes@, i as int);
        let close = if i < closes.len() {
            match &closes[i] {
                Some(c) => Some(c.clone()),
                None => None,
            }
        } else {
            None
        };
        let volume = if i < volumes.len() {
            match &volumes[i] {
                Some(v) => Some(v.clone()),
                None => None,
            }
        } else {
            None
        };
        match (close, volume) {
            (Some(price), Some(volume)) => {
                match days[i] {
                    Some(day) => {
                        rows.push(ChartRow { asset_key: asset_key.clone(), day, price, volume });
                        proof {
                            let after = complete_sessions(closes@, volumes@, i + 1);
                            assert(after == before.push(i as int));
                            assert forall|k: int| 0 <= k < rows@.len() implies row_of_session(
                                #[trigger] rows@[k],
                                asset_key@,
                                closes@,
                                volumes@,
                                days@,
                                after[k],
                            ) by {
                                if k < before.len() {
                                    assert(after[k] == before[k]);
                                }
                            }
                        }
                    },
                    None => {
                        return None;
                    },
                }
            },
            _ => {
                dropped += 1;
                proof {
                    assert(complete_sessions(closes@, volumes@, i + 1) == before);
                }
            },
        }
        i += 1;
    }
    Some((rows, dropped))
}

} // verus!
