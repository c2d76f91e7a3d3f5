//! Daily directional flow rows.
//!
//! Rows are route-agnostic quantities. Unit and attribution are stamped from
//! each route's `measurement` config during analysis.
use crate::day::{date_error_text, date_from_text, Day};
use crate::dec::{decimal_error_text, decimal_from_text, decimal_text, pair, pair_units, Dec};
use crate::flow::{FlowError, Quantity};
use crate::scan::{first_issue, first_issue_from};
use crate::text::{count_text, decimal_digits, trim_text, trimmed};
use vstd::prelude::*;
use vstd::string::*;

verus! {

#[derive(Debug, PartialEq, Eq)]
pub enum IngestError {
    Parse { path: String, message: String },
}

/// A flow row as written in the CSV.
#[derive(Debug, PartialEq, Eq)]
pub struct DailyFlowRow {
    pub route_id: String,
    pub day: String,
    pub gross_a_to_b: String,
    pub gross_b_to_a: String,
}

/// Parsed flow row before unit/attribution are applied from route measurement.
#[derive(Debug, PartialEq, Eq)]
pub struct RawDailyFlow {
    pub route_id: String,
    pub day: Day,
    pub gross_a_to_b: Quantity,
    pub gross_b_to_a: Quantity,
}

impl Clone for RawDailyFlow {
    fn clone(&self) -> (r: Self)
        ensures
            r == *self,
    {
        RawDailyFlow {
            route_id: self.route_id.clone(),
            day: self.day,
            gross_a_to_b: self.gross_a_to_b,
            gross_b_to_a: self.gross_b_to_a,
        }
    }
}

/// `row N` for the data row at index `idx` (the header is row 1).
pub open spec fn row_label(idx: int) -> Seq<char> {
    "row "@ + decimal_digits((idx + 2) as nat)
}

pub fn row_label_text(idx: usize) -> (r: String)
    requires
        idx + 2 <= usize::MAX,
    ensures
        r@ == row_label(idx as int),
{
    String::from_str("row ").concat(count_text(idx + 2).as_str())
}

/// Why a day text is refused, if it is.
pub open spec fn day_problem(raw: Seq<char>, idx: int) -> Option<Seq<char>> {
    if date_from_text(raw) is None {
        Some(row_label(idx) + ": invalid day '"@ + raw + "': "@ + date_error_text(raw))
    } else {
        None
    }
}

/// Why a quantity text is refused, if it is: it is no decimal (after
/// trimming), or a negative one.
pub open spec fn qty_problem(raw: Seq<char>, idx: int) -> Option<Seq<char>> {
    match decimal_from_text(trimmed(raw)) {
        None => Some(
            row_label(idx) + ": invalid quantity '"@ + raw + "': "@ + decimal_error_text(
                trimmed(raw),
            ),
        ),
        Some(p) => if pair_units(p) < 0 {
            Some(row_label(idx) + ": quantity must be non-negative, got "@ + decimal_text(p.0, p.1))
        } else {
            None
        },
    }
}

/// The quantity a valid quantity text holds.
pub open spec fn qty_value(raw: Seq<char>) -> (int, int) {
    decimal_from_text(trimmed(raw)).unwrap()
}

fn parse_qty(raw: &String, path: &String, idx: usize) -> (r: Result<Quantity, IngestError>)
    requires
        idx + 2 <= usize::MAX,
    ensures
        match qty_problem(raw@, idx as int) {
            Some(m) => r matches Err(IngestError::Parse { path: p, message }) && p@ == path@
                && message@ == m,
            None => r matches Ok(q) && pair(q.value()) == qty_value(raw@),
        },
{
    let t = trim_text(raw.as_str());
    let value = match Dec::parse_or_error(t.as_str()) {
        Ok(v) => v,
        Err(e) => {
            return Err(
                IngestError::Parse {
                    path: path.clone(),
                    message: row_label_text(idx).concat(": invalid quantity '").concat(
                        raw.as_str(),
                    ).concat("': ").concat(e.as_str()),
                },
            );
        },
    };
    match Quantity::new(value) {
        Ok(q) => Ok(q),
        Err(_) => Err(
            IngestError::Parse {
                path: path.clone(),
                message: row_label_text(idx).concat(": quantity must be non-negative, got ").concat(
                    value.to_text().as_str(),
                ),
            },
        ),
    }
}

/// Why a flow row is refused, if it is: its day, then its two quantities.
pub open spec fn flow_row_problem(row: DailyFlowRow, idx: int) -> Option<Seq<char>> {
    if day_problem(row.day@, idx) is Some {
        day_problem(row.day@, idx)
    } else if qty_problem(row.gross_a_to_b@, idx) is Some {
        qty_problem(row.gross_a_to_b@, idx)
    } else {
        qty_problem(row.gross_b_to_a@, idx)
    }
}

/// `f` is the flow row `row`.
pub open spec fn flow_row_parsed(row: DailyFlowRow, f: RawDailyFlow) -> bool {
    &&& f.route_id@ == row.route_id@
    &&& f.day.num() == date_from_text(row.day@).unwrap()
    &&& pair(f.gross_a_to_b.value()) == qty_value(row.gross_a_to_b@)
    &&& pair(f.gross_b_to_a.value()) == qty_value(row.gross_b_to_a@)
}

/// Parses one flow row; `idx` is its index among the data rows.
pub fn parse_flow_row(row: &DailyFlowRow, path: &String, idx: usize) -> (r: Result<
    RawDailyFlow,
    IngestError,
>)
    requires
        idx + 2 <= usize::MAX,
    ensures
        match flow_row_problem(*row, idx as int) {
            Some(m) => r matches Err(IngestError::Parse { path: p, message }) && p@ == path@
                && message@ == m,
            None => r matches Ok(f) && flow_row_parsed(*row, f),
        },
{
    let day = match Day::parse_or_error(row.day.as_str()) {
        Ok(d) => d,
        Err(e) => {
            return Err(
                IngestError::Parse {
                    path: path.clone(),
                    message: row_label_text(idx).concat(": invalid day '").concat(
                        row.day.as_str(),
                    ).concat("': ").concat(e.as_str()),
                },
            );
        },
    };
    let a_to_b = match parse_qty(&row.gross_a_to_b, path, idx) {
        Ok(q) => q,
        Err(e) => {
            return Err(e);
        },
    };
    let b_to_a = match parse_qty(&row.gross_b_to_a, path, idx) {
        Ok(q) => q,
        Err(e) => {
            return Err(e);
        },
    };
    Ok(RawDailyFlow { route_id: row.route_id.clone(), day, gross_a_to_b: a_to_b, gross_b_to_a: b_to_a })
}

pub open spec fn flow_row_checks(rows: Seq<DailyFlowRow>) -> spec_fn(int) -> Option<Seq<char>> {
    |i: int| flow_row_problem(rows[i], i)
}

/// Parses the flow rows in order, stopping at the first that is refused.
pub fn parse_flow_rows(rows: &Vec<DailyFlowRow>, path: &String) -> (r: Result<
    Vec<RawDailyFlow>,
    IngestError,
>)
    requires
        rows@.len() + 2 <= usize::MAX,
    ensures
        match first_issue(rows@.len() as int, flow_row_checks(rows@)) {
            Some(m) => r matches Err(IngestError::Parse { path: p, message }) && p@ == path@
                && message@ == m,
            None => r matches Ok(v) && v@.len() == rows@.len() && forall|i: int|
                0 <= i < rows@.len() ==> #[trigger] flow_row_parsed(rows@[i], v@[i]),
        },
{
    let ghost check = flow_row_checks(rows@);
    let mut out: Vec<RawDailyFlow> = Vec::new();
    let mut i: usize = 0;
    while i < rows.len()
        invariant
            i <= rows@.len(),
            rows@.len() + 2 <= usize::MAX,
            check == flow_row_checks(rows@),
            out@.len() == i,
            forall|j: int| 0 <= j < i ==> #[trigger] flow_row_parsed(rows@[j], out@[j]),
            first_issue(rows@.len() as int, check) == first_issue_from(
                i as int,
                rows@.len() as int,
                check,
            ),
        decreases rows.len() - i,
    {
        match parse_flow_row(&rows[i], path, i) {
            Ok(f) => {
                out.push(f);
            },
            Err(e) => {
                return Err(e);
            },
        }
        i += 1;
    }
    Ok(out)
}

} // verus!
