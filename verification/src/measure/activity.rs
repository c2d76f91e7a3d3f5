//! Activity anomaly: ratio of window median volume to baseline median volume.
//!
//! Uses the standard statistical median (even-`n` -> average of the two
//! middle values). It does not identify directional flow or migration.
use crate::dec::{dec_div, dec_is_zero, pair, pair_units, pdiv, Dec};
use crate::identity::AssetKey;
use crate::measure::daily::{series_valid, validate_series, validation_outcome, MeasureError};
use crate::measure::stats::{median, median_of, names};
use crate::response::{collect_volumes, volumes_of, ResponseObservation};
use vstd::prelude::*;

verus! {

#[derive(Debug, PartialEq, Eq)]
pub struct ActivityAnomaly {
    pub asset_key: AssetKey,
    pub window_name: String,
    pub baseline_window_name: String,
    pub window_median_volume: Option<Dec>,
    pub baseline_median_volume: Option<Dec>,
    /// `window_median_volume / baseline_median_volume`. `None` if either
    /// median is unavailable (no volumes) or the baseline median is zero.
    pub ratio: Option<Dec>,
    pub interpretation_boundary: &'static str,
}

/// The interpretation note of every activity anomaly.
pub open spec fn activity_boundary_note() -> Seq<char> {
    "Activity anomaly is a ratio of standard medians (even-N: average of the two middle values, not the upper one). It does not identify directional flow, trading intent, or migration."@
}

/// The ratio of the medians when both exist and the baseline one is not
/// zero; the outer `None` when the ratio does not fit.
pub open spec fn median_ratio(w: Option<(int, int)>, b: Option<(int, int)>) -> Option<Option<(int, int)>> {
    match (w, b) {
        (Some(x), Some(y)) => if pair_units(y) != 0 {
            match pdiv(x, y) {
                Some(q) => Some(Some(q)),
                None => None,
            }
        } else {
            Some(None)
        },
        _ => Some(None),
    }
}

/// `a` compares the median volume of `wobs` with that of `bobs`, for asset
/// `key` in window `wname` against baseline window `bname`.
pub open spec fn activity_of(
    a: ActivityAnomaly,
    key: AssetKey,
    wname: String,
    bname: String,
    wobs: Seq<ResponseObservation>,
    bobs: Seq<ResponseObservation>,
) -> bool {
    &&& a.asset_key == key
    &&& a.window_name == wname
    &&& a.baseline_window_name == bname
    &&& names(a.window_median_volume, median_of(volumes_of(wobs)))
    &&& names(a.baseline_median_volume, median_of(volumes_of(bobs)))
    &&& names(a.ratio, median_ratio(median_of(volumes_of(wobs)), median_of(volumes_of(bobs))).unwrap())
    &&& a.interpretation_boundary@ == activity_boundary_note()
}

/// Mixed `asset_key`s or duplicate `(asset_key, day)` rows within either
/// slice are errors. Empty slices are not errors — they simply yield `None`
/// medians.
pub fn account_activity_anomaly(
    asset_key: AssetKey,
    window_name: String,
    baseline_window_name: String,
    window_observations: Vec<ResponseObservation>,
    baseline_observations: Vec<ResponseObservation>,
) -> (r: Result<ActivityAnomaly, MeasureError>)
    ensures
        validation_outcome(r, window_observations@),
        series_valid(window_observations@) ==> validation_outcome(r, baseline_observations@),
        (series_valid(window_observations@) && series_valid(baseline_observations@)) ==> (r is Ok
            <==> median_ratio(
            median_of(volumes_of(window_observations@)),
            median_of(volumes_of(baseline_observations@)),
        ) is Some),
        (series_valid(window_observations@) && series_valid(baseline_observations@) && r is Err)
            ==> r == Err::<ActivityAnomaly, MeasureError>(MeasureError::ArithmeticOverflow),
        r matches Ok(a) ==> activity_of(
            a,
            asset_key,
            window_name,
            baseline_window_name,
            window_observations@,
            baseline_observations@,
        ),
{
    match validate_series(&window_observations) {
        Err(e) => return Err(e),
        Ok(_) => {},
    }
    match validate_series(&baseline_observations) {
        Err(e) => return Err(e),
        Ok(_) => {},
    }
    let window_vols = collect_volumes(&window_observations);
    let baseline_vols = collect_volumes(&baseline_observations);
    let window_median_volume = median(&window_vols);
    let baseline_median_volume = median(&baseline_vols);
    let ratio = match (window_median_volume, baseline_median_volume) {
        (Some(w), Some(b)) => if !dec_is_zero(&b) {
            match dec_div(&w, &b) {
                Some(q) => Some(q),
                None => return Err(MeasureError::ArithmeticOverflow),
            }
        } else {
            None
        },
        _ => None,
    };
    Ok(ActivityAnomaly {
        asset_key,
        window_name,
        baseline_window_name,
        window_median_volume,
        baseline_median_volume,
        ratio,
        interpretation_boundary: "Activity anomaly is a ratio of standard medians (even-N: average of the two middle values, not the upper one). It does not identify directional flow, trading intent, or migration.",
    })
}

} // verus!
