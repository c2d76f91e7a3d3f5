//! Daily market-response rows.
use crate::day::{date_error_text, date_from_text, Day};
use crate::dec::{decimal_error_text, decimal_from_text, lifted, Dec};
use crate::identity::AssetKey;
use crate::ingest::daily_flows::{row_label, row_label_text};
use crate::response::ResponseObservation;
use crate::scan::{first_issue, first_issue_from};
use crate::text::{trim_text, trimmed};
use vstd::prelude::*;
use vstd::string::*;

verus! {

#[derive(Debug, PartialEq, Eq)]
pub enum ResponseIngestError {
    Parse { path: String, message: String },
}

/// A response row as written in the CSV; price and volume may be absent.
#[derive(Debug, PartialEq, Eq)]
pub struct DailyResponseRow {
    pub asset_key: String,
    pub day: String,
    pub price: Option<String>,
    pub volume: Option<String>,
}

/// Why an optional decimal text is refused, if it is: after trimming it is
/// neither empty nor a decimal.
pub open spec fn opt_decimal_problem(raw: Option<String>, idx: int, field: Seq<char>) -> Option<Seq<char>> {
    match raw {
        None => None,
        Some(s) => {
            let t = trimmed(s@);
            if t.len() == 0 || decimal_from_text(t) is Some {
                None
            } else {
                Some(row_label(idx) + ": invalid "@ + field + " '"@ + t + "': "@ + decimal_error_text(t))
            }
        },
    }
}

/// The value an accepted optional decimal text gives: none when absent or blank.
pub open spec fn opt_decimal_value(raw: Option<String>) -> Option<(int, int)> {
    match raw {
        None => None,
        Some(s) => if trimmed(s@).len() == 0 {
            None
        } else {
            decimal_from_text(trimmed(s@))
        },
    }
}

fn parse_opt_decimal(raw: &Option<String>, path: &String, idx: usize, field: &str) -> (r: Result<
    Option<Dec>,
    ResponseIngestError,
>)
    requires
        idx + 2 <= usize::MAX,
    ensures
        match opt_decimal_problem(*raw, idx as int, field@) {
            Some(m) => r matches Err(ResponseIngestError::Parse { path: p, message }) && p@ == path@
                && message@ == m,
            None => r matches Ok(v) && lifted(v, opt_decimal_value(*raw)),
        },
{
    let s = match raw {
        None => {
            return Ok(None);
        },
        Some(s) => s,
    };
    let t = trim_text(s.as_str());
    if t.as_str().is_empty() {
        return Ok(None);
    }
    match Dec::parse_or_error(t.as_str()) {
        Ok(v) => Ok(Some(v)),
        Err(e) => Err(
            ResponseIngestError::Parse {
                path: path.clone(),
                message: row_label_text(idx).concat(": invalid ").concat(field).concat(" '").concat(
                    t.as_str(),
                ).concat("': ").concat(e.as_str()),
            },
        ),
    }
}

/// Why a response row is refused, if it is: its day, its price, its volume.
pub open spec fn response_row_problem(row: DailyResponseRow, idx: int) -> Option<Seq<char>> {
    if date_from_text(row.day@) is None {
        Some(row_label(idx) + ": invalid day '"@ + row.day@ + "': "@ + date_error_text(row.day@))
    } else if opt_decimal_problem(row.price, idx, "price"@) is Some {
        opt_decimal_problem(row.price, idx, "price"@)
    } else {
        opt_decimal_problem(row.volume, idx, "volume"@)
    }
}

/// `o` is the response row `row`.
pub open spec fn response_row_parsed(row: DailyResponseRow, o: ResponseObservation) -> bool {
    &&& o.asset_key.0@ == row.asset_key@
    &&& o.day.num() == date_from_text(row.day@).unwrap()
    &&& lifted(o.price, opt_decimal_value(row.price))
    &&& lifted(o.volume, opt_decimal_value(row.volume))
}

pub open spec fn response_row_checks(rows: Seq<DailyResponseRow>) -> spec_fn(int) -> Option<Seq<char>> {
    |i: int| response_row_problem(rows[i], i)
}

/// Parses the response rows in order, stopping at the first that is refused.
pub fn parse_response_rows(rows: &Vec<DailyResponseRow>, path: &String) -> (r: Result<
    Vec<ResponseObservation>,
    ResponseIngestError,
>)
    requires
        rows@.len() + 2 <= usize::MAX,
    ensures
        match first_issue(rows@.len() as int, response_row_checks(rows@)) {
            Some(m) => r matches Err(ResponseIngestError::Parse { path: p, message }) && p@ == path@
                && message@ == m,
            None => r matches Ok(v) && v@.len() == rows@.len() && forall|i: int|
                0 <= i < rows@.len() ==> #[trigger] response_row_parsed(rows@[i], v@[i]),
        },
{
    let ghost check = response_row_checks(rows@);
    let mut out: Vec<ResponseObservation> = Vec::new();
    let mut i: usize = 0;
    while i < rows.len()
        invariant
            i <= rows@.len(),
            rows@.len() + 2 <= usize::MAX,
            check == response_row_checks(rows@),
            out@.len() == i,
            forall|j: int| 0 <= j < i ==> #[trigger] response_row_parsed(rows@[j], out@[j]),
            first_issue(rows@.len() as int, check) == first_issue_from(
                i as int,
                rows@.len() as int,
                check,
            ),
        decreases rows.len() - i,
    {
        let row = &rows[i];
        let day = match Day::parse_or_error(row.day.as_str()) {
            Ok(d) => d,
            Err(e) => {
                return Err(
                    ResponseIngestError::Parse {
                        path: path.clone(),
                        message: row_label_text(i).concat(": invalid day '").concat(
                            row.day.as_str(),
                        ).concat("': ").concat(e.as_str()),
                    },
                );
            },
        };
        let price = match parse_opt_decimal(&row.price, path, i, "price") {
            Ok(v) => v,
            Err(e) => {
                return Err(e);
            },
        };
        let volume = match parse_opt_decimal(&row.volume, path, i, "volume") {
            Ok(v) => v,
            Err(e) => {
                return Err(e);
            },
        };
        out.push(
            ResponseObservation { asset_key: AssetKey(row.asset_key.clone()), day, price, volume },
        );
        i += 1;
    }
    Ok(out)
}

} // verus!
