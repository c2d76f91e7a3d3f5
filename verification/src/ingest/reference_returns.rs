//! Frozen event-day reference returns used by the pass-through measure.
//!
//! These are source-reported comparison points, not full price tapes. Each
//! row binds one named reference to one declared token asset and records the
//! source/cutoff needed to interpret the same-date response gap.
use crate::day::{date_error_text, date_from_text, date_text, Day};
use crate::dec::{decimal_error_text, decimal_from_text, pair, Dec};
use crate::identity::AssetKey;
use crate::ingest::daily_flows::{row_label, row_label_text};
use crate::scan::{first_issue, first_issue_from};
use crate::text::{trim_text, trimmed};
use vstd::prelude::*;
use vstd::string::*;

verus! {

#[derive(Debug, PartialEq, Eq)]
pub struct ReferenceReturnObservation {
    pub reference_key: String,
    pub asset_key: AssetKey,
    pub day: Day,
    pub reference_return: Dec,
    pub source_label: String,
    pub source_url: String,
    pub cutoff: String,
}

impl Clone for ReferenceReturnObservation {
    fn clone(&self) -> (r: Self)
        ensures
            r == *self,
    {
        ReferenceReturnObservation {
            reference_key: self.reference_key.clone(),
            asset_key: self.asset_key.clone(),
            day: self.day,
            reference_return: self.reference_return,
            source_label: self.source_label.clone(),
            source_url: self.source_url.clone(),
            cutoff: self.cutoff.clone(),
        }
    }
}

#[derive(Debug, PartialEq, Eq)]
pub enum ReferenceReturnIngestError {
    Parse { path: String, message: String },
}

/// A reference-return row as written in the CSV.
#[derive(Debug, PartialEq, Eq)]
pub struct RawReferenceReturn {
    pub reference_key: String,
    pub asset_key: String,
    pub day: String,
    pub reference_return: String,
    pub source_label: String,
    pub source_url: String,
    pub cutoff: String,
}

/// The message for an empty required field.
pub open spec fn empty_field_message(idx: int, field: Seq<char>) -> Seq<char> {
    row_label(idx) + ": empty "@ + field
}

/// A required field: its trimmed text, or the error when that is empty.
pub fn required(raw: &String, field: &str, path: &String, idx: usize) -> (r: Result<
    String,
    ReferenceReturnIngestError,
>)
    requires
        idx + 2 <= usize::MAX,
    ensures
        trimmed(raw@).len() == 0 ==> (r matches Err(ReferenceReturnIngestError::Parse { path: p, message })
            && p@ == path@ && message@ == empty_field_message(idx as int, field@)),
        trimmed(raw@).len() > 0 ==> (r matches Ok(v) && v@ == trimmed(raw@)),
{
    let value = trim_text(raw.as_str());
    if value.as_str().is_empty() {
        return Err(
            ReferenceReturnIngestError::Parse {
                path: path.clone(),
                message: row_label_text(idx).concat(": empty ").concat(field),
            },
        );
    }
    Ok(value)
}

/// Whether an earlier row (before `i`) names the same reference, asset and day.
pub open spec fn repeated_before(rows: Seq<RawReferenceReturn>, i: int) -> bool {
    exists|j: int|
        0 <= j < i && trimmed((#[trigger] rows[j]).reference_key@) == trimmed(rows[i].reference_key@)
            && trimmed(rows[j].asset_key@) == trimmed(rows[i].asset_key@) && date_from_text(
            trimmed(rows[j].day@),
        ) == date_from_text(trimmed(rows[i].day@))
}

/// Why row `i` is refused, if it is: an empty required field (in the order
/// reference, asset, source label, source URL, cutoff), its day, its return,
/// or a reference, asset and day already given by an earlier row.
pub open spec fn reference_row_problem(rows: Seq<RawReferenceReturn>, i: int) -> Option<Seq<char>> {
    let row = rows[i];
    if trimmed(row.reference_key@).len() == 0 {
        Some(empty_field_message(i, "reference_key"@))
    } else if trimmed(row.asset_key@).len() == 0 {
        Some(empty_field_message(i, "asset_key"@))
    } else if trimmed(row.source_label@).len() == 0 {
        Some(empty_field_message(i, "source_label"@))
    } else if trimmed(row.source_url@).len() == 0 {
        Some(empty_field_message(i, "source_url"@))
    } else if trimmed(row.cutoff@).len() == 0 {
        Some(empty_field_message(i, "cutoff"@))
    } else if date_from_text(trimmed(row.day@)) is None {
        Some(
            row_label(i) + ": invalid day '"@ + row.day@ + "': "@ + date_error_text(
                trimmed(row.day@),
            ),
        )
    } else if decimal_from_text(trimmed(row.reference_return@)) is None {
        Some(
            row_label(i) + ": invalid reference_return '"@ + row.reference_return@ + "': "@
                + decimal_error_text(trimmed(row.reference_return@)),
        )
    } else if repeated_before(rows, i) {
        Some(
            row_label(i) + ": duplicate reference '"@ + trimmed(row.reference_key@)
                + "' for asset '"@ + trimmed(row.asset_key@) + "' on "@ + date_text(
                date_from_text(trimmed(row.day@)).unwrap(),
            ),
        )
    } else {
        None
    }
}

/// `o` is the reference-return row `row`.
pub open spec fn reference_row_parsed(row: RawReferenceReturn, o: ReferenceReturnObservation) -> bool {
    &&& o.reference_key@ == trimmed(row.reference_key@)
    &&& o.asset_key.0@ == trimmed(row.asset_key@)
    &&& date_from_text(trimmed(row.day@)) is Some
    &&& o.day.num() == date_from_text(trimmed(row.day@)).unwrap()
    &&& pair(o.reference_return) == decimal_from_text(trimmed(row.reference_return@)).unwrap()
    &&& o.source_label@ == trimmed(row.source_label@)
    &&& o.source_url@ == trimmed(row.source_url@)
    &&& o.cutoff@ == trimmed(row.cutoff@)
}

pub open spec fn reference_row_checks(rows: Seq<RawReferenceReturn>) -> spec_fn(int) -> Option<
    Seq<char>,
> {
    |i: int| reference_row_problem(rows, i)
}

/// Parses the reference-return rows in order, stopping at the first that is refused.
pub fn parse_reference_returns(rows: &Vec<RawReferenceReturn>, path: &String) -> (r: Result<
    Vec<ReferenceReturnObservation>,
    ReferenceReturnIngestError,
>)
    requires
        rows@.len() + 2 <= usize::MAX,
    ensures
        match first_issue(rows@.len() as int, reference_row_checks(rows@)) {
            Some(m) => r matches Err(ReferenceReturnIngestError::Parse { path: p, message })
                && p@ == path@ && message@ == m,
            None => r matches Ok(v) && v@.len() == rows@.len() && forall|i: int|
                0 <= i < rows@.len() ==> #[trigger] reference_row_parsed(rows@[i], v@[i]),
        },
{
    let ghost check = reference_row_checks(rows@);
    let mut out: Vec<ReferenceReturnObservation> = Vec::new();
    let mut i: usize = 0;
    while i < rows.len()
        invariant
            i <= rows@.len(),
            rows@.len() + 2 <= usize::MAX,
            check == reference_row_checks(rows@),
            out@.len() == i,
            forall|j: int| 0 <= j < i ==> #[trigger] reference_row_parsed(rows@[j], out@[j]),
            first_issue(rows@.len() as int, check) == first_issue_from(
                i as int,
                rows@.len() as int,
                check,
            ),
        decreases rows.len() - i,
    {
        let row = &rows[i];
        let reference_key = match required(&row.reference_key, "reference_key", path, i) {
            Ok(v) => v,
            Err(e) => {
                return Err(e);
            },
        };
        let asset_key = match required(&row.asset_key, "asset_key", path, i) {
            Ok(v) => v,
            Err(e) => {
                return Err(e);
            },
        };
        let source_label = match required(&row.source_label, "source_label", path, i) {
            Ok(v) => v,
            Err(e) => {
                return Err(e);
            },
        };
        let source_url = match required(&row.source_url, "source_url", path, i) {
            Ok(v) => v,
            Err(e) => {
                return Err(e);
            },
        };
        let cutoff = match required(&row.cutoff, "cutoff", path, i) {
            Ok(v) => v,
            Err(e) => {
                return Err(e);
            },
        };
        let day_text = trim_text(row.day.as_str());
        let day = match Day::parse_or_error(day_text.as_str()) {
            Ok(d) => d,
            Err(e) => {
                return Err(
                    ReferenceReturnIngestError::Parse {
                        path: path.clone(),
                        message: row_label_text(i).concat(": invalid day '").concat(
                            row.day.as_str(),
                        ).concat("': ").concat(e.as_str()),
                    },
                );
            },
        };
        let ret_text = trim_text(row.reference_return.as_str());
        let reference_return = match Dec::parse_or_error(ret_text.as_str()) {
            Ok(v) => v,
            Err(e) => {
                return Err(
                    ReferenceReturnIngestError::Parse {
                        path: path.clone(),
                        message: row_label_text(i).concat(": invalid reference_return '").concat(
                            row.reference_return.as_str(),
                        ).concat("': ").concat(e.as_str()),
                    },
                );
            },
        };
        let mut j: usize = 0;
        while j < i
            invariant
                j <= i < rows@.len(),
                out@.len() == i,
                forall|k: int| 0 <= k < i ==> #[trigger] reference_row_parsed(rows@[k], out@[k]),
                reference_key@ == trimmed(rows@[i as int].reference_key@),
                asset_key@ == trimmed(rows@[i as int].asset_key@),
                day.num() == date_from_text(trimmed(rows@[i as int].day@)).unwrap(),
                date_from_text(trimmed(rows@[i as int].day@)) is Some,
                trimmed(rows@[i as int].reference_key@).len() > 0,
                trimmed(rows@[i as int].asset_key@).len() > 0,
                trimmed(rows@[i as int].source_label@).len() > 0,
                trimmed(rows@[i as int].source_url@).len() > 0,
                trimmed(rows@[i as int].cutoff@).len() > 0,
                decimal_from_text(trimmed(rows@[i as int].reference_return@)) is Some,
                forall|k: int|
                    0 <= k < j ==> !(trimmed((#[trigger] rows@[k]).reference_key@) == trimmed(
                        rows@[i as int].reference_key@,
                    ) && trimmed(rows@[k].asset_key@) == trimmed(rows@[i as int].asset_key@)
                        && date_from_text(trimmed(rows@[k].day@)) == date_from_text(
                        trimmed(rows@[i as int].day@),
                    )),
                check == reference_row_checks(rows@),
                first_issue(rows@.len() as int, check) == first_issue_from(
                    i as int,
                    rows@.len() as int,
                    check,
                ),
                rows@.len() + 2 <= usize::MAX,
            decreases i - j,
        {
            if out[j].reference_key == reference_key && out[j].asset_key.0 == asset_key
                && out[j].day.number() == day.number() {
                proof {
                    assert(reference_row_parsed(rows@[j as int], out@[j as int]));
                }
                return Err(
                    ReferenceReturnIngestError::Parse {
                        path: path.clone(),
                        message: row_label_text(i).concat(": duplicate reference '").concat(
                            reference_key.as_str(),
                        ).concat("' for asset '").concat(asset_key.as_str()).concat("' on ").concat(
                            day.to_text().as_str(),
                        ),
                    },
                );
            }
            proof {
                assert(reference_row_parsed(rows@[j as int], out@[j as int]));
            }
            j += 1;
        }
        out.push(
            ReferenceReturnObservation {
                reference_key,
                asset_key: AssetKey(asset_key),
                day,
                reference_return,
                source_label,
                source_url,
                cutoff,
            },
        );
        i += 1;
    }
    Ok(out)
}

} // verus!
