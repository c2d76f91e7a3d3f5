//! Daily supply snapshot rows, and the lookup of one snapshot.
use crate::day::{date_error_text, date_from_text, date_text, Day};
use crate::dec::{decimal_error_text, decimal_from_text, pair, Dec};
use crate::identity::AssetKey;
use crate::ingest::daily_flows::{row_label, row_label_text};
use crate::scan::{first_issue, first_issue_from};
use crate::text::{trim_text, trimmed};
use vstd::prelude::*;
use vstd::string::*;

verus! {

#[derive(Debug, PartialEq, Eq)]
pub enum SupplyIngestError {
    Parse { path: String, message: String },
    MissingSnapshot { asset: String, day: Day },
}

/// The text of a missing-snapshot error.
pub open spec fn missing_snapshot_message(asset: Seq<char>, day: Day) -> Seq<char> {
    "no supply row for asset '"@ + asset + "' on "@ + date_text(day.num())
}

impl SupplyIngestError {
    /// The error as text.
    pub fn message(&self) -> (r: String)
        ensures
            self matches SupplyIngestError::MissingSnapshot { asset, day } ==> r@
                == missing_snapshot_message(asset@, *day),
            self matches SupplyIngestError::Parse { path, message } ==> r@ == "parse error in "@
                + path@ + ": "@ + message@,
    {
        match self {
            SupplyIngestError::Parse { path, message } => String::from_str(
                "parse error in ",
            ).concat(path.as_str()).concat(": ").concat(message.as_str()),
            SupplyIngestError::MissingSnapshot { asset, day } => String::from_str(
                "no supply row for asset '",
            ).concat(asset.as_str()).concat("' on ").concat(day.to_text().as_str()),
        }
    }
}

/// A supply row as written in the CSV.
#[derive(Debug, PartialEq, Eq)]
pub struct DailySupplyRow {
    pub asset_key: String,
    pub day: String,
    pub supply: String,
}

impl Clone for DailySupplyRow {
    fn clone(&self) -> (r: Self)
        ensures
            r == *self,
    {
        DailySupplyRow {
            asset_key: self.asset_key.clone(),
            day: self.day.clone(),
            supply: self.supply.clone(),
        }
    }
}

/// Why a supply row is refused, if it is: its day, then its supply.
pub open spec fn supply_row_problem(row: DailySupplyRow, idx: int) -> Option<Seq<char>> {
    if date_from_text(row.day@) is None {
        Some(row_label(idx) + ": invalid day '"@ + row.day@ + "': "@ + date_error_text(row.day@))
    } else if decimal_from_text(trimmed(row.supply@)) is None {
        Some(
            row_label(idx) + ": invalid supply '"@ + row.supply@ + "': "@ + decimal_error_text(
                trimmed(row.supply@),
            ),
        )
    } else {
        None
    }
}

/// `s` is the supply row `row`.
pub open spec fn supply_row_parsed(row: DailySupplyRow, s: (AssetKey, Day, Dec)) -> bool {
    &&& s.0.0@ == row.asset_key@
    &&& s.1.num() == date_from_text(row.day@).unwrap()
    &&& pair(s.2) == decimal_from_text(trimmed(row.supply@)).unwrap()
}

pub open spec fn supply_row_checks(rows: Seq<DailySupplyRow>) -> spec_fn(int) -> Option<Seq<char>> {
    |i: int| supply_row_problem(rows[i], i)
}

/// Parses the supply rows in order, stopping at the first that is refused.
pub fn parse_supply_rows(rows: &Vec<DailySupplyRow>, path: &String) -> (r: Result<
    Vec<(AssetKey, Day, Dec)>,
    SupplyIngestError,
>)
    requires
        rows@.len() + 2 <= usize::MAX,
    ensures
        match first_issue(rows@.len() as int, supply_row_checks(rows@)) {
            Some(m) => r matches Err(SupplyIngestError::Parse { path: p, message }) && p@ == path@
                && message@ == m,
            None => r matches Ok(v) && v@.len() == rows@.len() && forall|i: int|
                0 <= i < rows@.len() ==> #[trigger] supply_row_parsed(rows@[i], v@[i]),
        },
{
    let ghost check = supply_row_checks(rows@);
    let mut out: Vec<(AssetKey, Day, Dec)> = Vec::new();
    let mut i: usize = 0;
    while i < rows.len()
        invariant
            i <= rows@.len(),
            rows@.len() + 2 <= usize::MAX,
            check == supply_row_checks(rows@),
            out@.len() == i,
            forall|j: int| 0 <= j < i ==> #[trigger] supply_row_parsed(rows@[j], out@[j]),
            first_issue(rows@.len() as int, check) == first_issue_from(
                i as int,
                rows@.len() as int,
                check,
            ),
        decreases rows.len() - i,
    {
        let row = &rows[i];
        let day = match Day::parse_or_error(row.day.as_str()) {
            Ok(d) => d,
            Err(e) => {
                return Err(
                    SupplyIngestError::Parse {
                        path: path.clone(),
                        message: row_label_text(i).concat(": invalid day '").concat(
                            row.day.as_str(),
                        ).concat("': ").concat(e.as_str()),
                    },
                );
            },
        };
        let t = trim_text(row.supply.as_str());
        let supply = match Dec::parse_or_error(t.as_str()) {
            Ok(v) => v,
            Err(e) => {
                return Err(
                    SupplyIngestError::Parse {
                        path: path.clone(),
                        message: row_label_text(i).concat(": invalid supply '").concat(
                            row.supply.as_str(),
                        ).concat("': ").concat(e.as_str()),
                    },
                );
            },
        };
        out.push((AssetKey(row.asset_key.clone()), day, supply));
        i += 1;
    }
    Ok(out)
}

/// Index of the first row of `asset` on `day` at or after `i`; `rows.len()` if none.
pub open spec fn first_snapshot(rows: Seq<(AssetKey, Day, Dec)>, asset: Seq<char>, day: Day, i: int) -> int
    decreases rows.len() - i,
{
    if i >= rows.len() || i < 0 {
        rows.len() as int
    } else if rows[i].0.0@ == asset && rows[i].1 == day {
        i
    } else {
        first_snapshot(rows, asset, day, i + 1)
    }
}

proof fn lemma_first_snapshot_bounds(rows: Seq<(AssetKey, Day, Dec)>, asset: Seq<char>, day: Day, i: int)
    requires
        0 <= i,
    ensures
        i <= first_snapshot(rows, asset, day, i) <= rows.len() || first_snapshot(rows, asset, day, i)
            == rows.len(),
    decreases rows.len() - i,
{
    if i < rows.len() {
        lemma_first_snapshot_bounds(rows, asset, day, i + 1);
    }
}

/// The supply of `asset` on `day`: the first row for that asset and day.
pub fn supply_on(rows: &Vec<(AssetKey, Day, Dec)>, asset: &AssetKey, day: Day) -> (r: Result<
    Dec,
    SupplyIngestError,
>)
    ensures
        ({
            let k = first_snapshot(rows@, asset.0@, day, 0);
            &&& 0 <= k <= rows@.len()
            &&& k < rows@.len() ==> r == Ok::<Dec, SupplyIngestError>(rows@[k].2)
            &&& k == rows@.len() ==> (r matches Err(SupplyIngestError::MissingSnapshot { asset: a, day: d })
                && a@ == asset.0@ && d == day)
        }),
{
    proof {
        lemma_first_snapshot_bounds(rows@, asset.0@, day, 0);
    }
    let mut i: usize = 0;
    while i < rows.len()
        invariant
            i <= rows@.len(),
            first_snapshot(rows@, asset.0@, day, 0) == first_snapshot(rows@, asset.0@, day, i as int),
        decreases rows.len() - i,
    {
        if rows[i].0.same(asset) && rows[i].1 == day {
            return Ok(rows[i].2);
        }
        i += 1;
    }
    Err(SupplyIngestError::MissingSnapshot { asset: asset.0.clone(), day })
}

} // verus!
