//! Shock score: a z-score on one asset's event-day daily return.
//!
//! The event metric is the daily simple return on the first day inside the
//! event window that has a computable daily return. It is compared to the
//! mean/std of daily returns inside the baseline window. Returns are computed
//! across the whole series before filtering by window membership, so a return
//! whose price pair spans a window boundary attributes to its later day.
use crate::day::Day;
use crate::dec::{dec_of, lemma_dec_of_pair, pair, Dec};
use crate::event::{window_has, EventWindow};
use crate::identity::AssetKey;
use crate::measure::daily::{
    lemma_first_invalid_le, priced_of, return_view, returns_from_sorted, returns_of, series_valid,
    sorted_validated, validation_outcome, DailyReturn, MeasureError,
};
use crate::measure::stats::{
    compute_z_score, mean_of, names, std_from, variance_of, z_result_of, ZScoreResult,
    ZScoreUnavailable,
};
use crate::sort::stable_sort;
use crate::coverage::EvidenceBoundary;
use crate::measure::activity::{account_activity_anomaly, activity_of, median_ratio, ActivityAnomaly};
use crate::measure::horizon::{
    cumulative_return_from_event, horizons_fit, horizons_of, last_on_or_before, HorizonReturns,
};
use crate::measure::project_support::{
    baseline_name, build_measure_boundary, event_index, event_window_error, gap_slots, gap_slots_of,
    gaps_for_slots, joined_keys, low_baseline_reason, measure_assumption, missing_in,
    require_asset_observations, resolve_baseline_window, resolve_event_window, response_rows_input,
    session_gap, MeasureProjectError,
};
use crate::coverage::{with_source, CoverageGap, GapSource, MissingKind};
use crate::measure::stats::median_of;
use crate::project::validate::key_declared;
use crate::response::volumes_of;
use crate::project::ProjectConfig;
use crate::report::market::{copy_rows, first_named, in_window, of_key, rows_in_window};
use crate::response::ResponseObservation;
use vstd::prelude::*;

verus! {

#[derive(Debug, PartialEq, Eq)]
pub struct ShockScore {
    pub asset_key: AssetKey,
    pub event_window_name: String,
    pub baseline_window_name: String,
    /// The day the event-day return is attributed to (first day-with-return
    /// inside the event window), if any.
    pub event_day: Option<Day>,
    /// Daily simple return on `event_day`.
    pub event_return: Option<Dec>,
    pub baseline_n: usize,
    pub baseline_mean: Option<Dec>,
    pub baseline_std: Option<Dec>,
    pub z_score: Option<Dec>,
    /// True when z was computed but baseline_n is below the adequacy floor.
    pub low_baseline: bool,
    pub unavailable_reason: Option<ZScoreUnavailable>,
    pub interpretation_boundary: &'static str,
}

/// The interpretation note of every shock score.
pub open spec fn shock_boundary_note() -> Seq<char> {
    "Shock score is a descriptive z-score of one asset's event-day daily return against its own baseline-window daily-return distribution. It is not a statistical-significance test, not causal inference, and not a migration signal."@
}

/// The first index of `rs` whose day lies in `w`; `rs.len()` if none.
pub open spec fn first_in_window<X>(rs: Seq<(int, X)>, w: EventWindow) -> nat
    decreases rs.len(),
{
    if rs.len() == 0 {
        0
    } else if window_has(w, rs[0].0) {
        0
    } else {
        1 + first_in_window(rs.drop_first(), w)
    }
}

/// The values of the entries of `rs` whose day lies in `w`, in order.
pub open spec fn values_in_window(rs: Seq<(int, (int, int))>, w: EventWindow) -> Seq<Dec>
    decreases rs.len(),
{
    if rs.len() == 0 {
        Seq::empty()
    } else {
        values_in_window(rs.drop_last(), w) + if window_has(w, rs.last().0) {
            seq![dec_of(rs.last().1)]
        } else {
            Seq::empty()
        }
    }
}

/// Daily returns as `(day, value)` entries.
pub open spec fn day_values(rs: Seq<(int, int, (int, int))>) -> Seq<(int, (int, int))> {
    rs.map_values(|x: (int, int, (int, int))| (x.0, x.2))
}

/// The z-score fields of a result, gathered.
pub open spec fn z_fields(
    n: usize,
    mean: Option<Dec>,
    std: Option<Dec>,
    z: Option<Dec>,
    low: bool,
    reason: Option<ZScoreUnavailable>,
) -> ZScoreResult {
    ZScoreResult {
        baseline_n: n,
        baseline_mean: mean,
        baseline_std: std,
        z_score: z,
        low_baseline: low,
        unavailable_reason: reason,
    }
}

/// Whether `(event_day, event_value)` is the first entry of `dv` inside `w`,
/// or both `None` if there is none.
pub open spec fn event_point_of(
    event_day: Option<Day>,
    event_value: Option<Dec>,
    dv: Seq<(int, (int, int))>,
    w: EventWindow,
) -> bool {
    let k = first_in_window(dv, w) as int;
    &&& (k >= dv.len() ==> event_day is None && event_value is None)
    &&& (k < dv.len() ==> event_day is Some && event_day.unwrap().num() == dv[k].0
        && event_value is Some && pair(event_value.unwrap()) == dv[k].1)
}

/// The first entry inside `w` and the values inside `b`, of daily returns.
pub fn split_by_windows(rets: &Vec<(Day, Dec)>, event_window: &EventWindow, baseline_window: &EventWindow) -> (r: (Option<Day>, Option<Dec>, Vec<Dec>))
    ensures
        event_point_of(r.0, r.1, rets@.map_values(|x: (Day, Dec)| (x.0.num(), pair(x.1))), *event_window),
        r.2@ == values_in_window(rets@.map_values(|x: (Day, Dec)| (x.0.num(), pair(x.1))), *baseline_window),
        r.0 is None ==> r.1 is None && forall|j: int|
            0 <= j < rets@.len() ==> !window_has(*event_window, (#[trigger] rets@[j]).0.num()),
        r.0 is Some ==> window_has(*event_window, r.0.unwrap().num()) && r.1 is Some && exists|k: int|
            0 <= k < rets@.len() && (#[trigger] rets@[k]).0.num() == r.0.unwrap().num() && pair(rets@[k].1)
                == pair(r.1.unwrap()) && forall|j: int|
                0 <= j < k ==> !window_has(*event_window, (#[trigger] rets@[j]).0.num()),
{
    let ghost dv = rets@.map_values(|x: (Day, Dec)| (x.0.num(), pair(x.1)));
    let mut event_day: Option<Day> = None;
    let mut event_value: Option<Dec> = None;
    let mut vals: Vec<Dec> = Vec::new();
    let mut i: usize = 0;
    while i < rets.len()
        invariant
            i <= rets@.len(),
            dv == rets@.map_values(|x: (Day, Dec)| (x.0.num(), pair(x.1))),
            vals@ == values_in_window(dv.take(i as int), *baseline_window),
            event_day is None ==> first_in_window(dv, *event_window) >= i && event_value is None,
            event_day is Some ==> event_point_of(event_day, event_value, dv, *event_window),
        decreases rets.len() - i,
    {
        let (d, v) = rets[i];
        proof {
            assert(dv.take(i + 1).drop_last() =~= dv.take(i as int));
            lemma_dec_of_pair(v);
            if event_day is None {
                lemma_first_in_window_from(dv, *event_window, i as int);
            }
        }
        if baseline_window.contains(d) {
            vals.push(v);
        }
        proof {
            assert(vals@ =~= values_in_window(dv.take(i + 1), *baseline_window));
        }
        if event_day.is_none() && event_window.contains(d) {
            event_day = Some(d);
            event_value = Some(v);
        }
        i += 1;
    }
    proof {
        assert(dv.take(i as int) =~= dv);
        law_event_is_first_in_window(event_day, event_value, dv, *event_window);
        assert forall|j: int| 0 <= j < rets@.len() implies dv[j].0 == (#[trigger] rets@[j]).0.num() by {}
        if event_day is Some {
            let k = choose|k: int|
                0 <= k < dv.len() && (#[trigger] dv[k]).0 == event_day.unwrap().num() && dv[k].1
                    == pair(event_value.unwrap()) && forall|j: int|
                    0 <= j < k ==> !window_has(*event_window, #[trigger] dv[j].0);
            assert(rets@[k].0.num() == event_day.unwrap().num());
            assert forall|j: int| 0 <= j < k implies !window_has(*event_window, (#[trigger] rets@[j]).0.num()) by {
                assert(dv[j].0 == rets@[j].0.num());
            }
        } else {
            assert forall|j: int| 0 <= j < rets@.len() implies !window_has(*event_window, (#[trigger] rets@[j]).0.num()) by {
                assert(dv[j].0 == rets@[j].0.num());
            }
        }
    }
    (event_day, event_value, vals)
}

/// If no entry before `i` lies in `w`, then the first one in `w` is at or
/// after `i`, and it is `i` exactly when entry `i` lies in `w`.
proof fn lemma_first_in_window_from<X>(rs: Seq<(int, X)>, w: EventWindow, i: int)
    requires
        0 <= i < rs.len(),
        first_in_window(rs, w) >= i,
    ensures
        window_has(w, rs[i].0) ==> first_in_window(rs, w) == i,
        !window_has(w, rs[i].0) ==> first_in_window(rs, w) >= i + 1,
    decreases i,
{
    if i > 0 {
        assert(!window_has(w, rs[0].0));
        let t = rs.drop_first();
        assert(t[i - 1] == rs[i]);
        lemma_first_in_window_from(t, w, i - 1);
    }
}

/// The index `first_in_window` finds is at most the length; the entries
/// before it lie outside the window, and the one at it, if any, inside.
proof fn lemma_first_in_window<X>(rs: Seq<(int, X)>, w: EventWindow)
    ensures
        first_in_window(rs, w) <= rs.len(),
        forall|j: int| 0 <= j < first_in_window(rs, w) ==> !window_has(w, #[trigger] rs[j].0),
        first_in_window(rs, w) < rs.len() ==> window_has(w, rs[first_in_window(rs, w) as int].0),
    decreases rs.len(),
{
    if rs.len() > 0 && !window_has(w, rs[0].0) {
        let t = rs.drop_first();
        lemma_first_in_window(t, w);
        assert forall|j: int| 0 <= j < first_in_window(rs, w) implies !window_has(w, #[trigger] rs[j].0) by {
            if j > 0 {
                assert(rs[j] == t[j - 1]);
            }
        }
        if first_in_window(rs, w) < rs.len() {
            assert(rs[first_in_window(rs, w) as int] == t[first_in_window(t, w) as int]);
        }
    }
}

/// The event point is the first daily return inside the event window: with
/// an event day, that day lies in the window, the value is the return of
/// an entry on that day, and no entry before it lies in the window (for
/// entries in day order, none in the window is earlier); without one, no
/// entry lies in the window.
pub proof fn law_event_is_first_in_window(
    event_day: Option<Day>,
    event_value: Option<Dec>,
    dv: Seq<(int, (int, int))>,
    w: EventWindow,
)
    requires
        event_point_of(event_day, event_value, dv, w),
    ensures
        event_day is None ==> event_value is None && forall|j: int|
            0 <= j < dv.len() ==> !window_has(w, #[trigger] dv[j].0),
        event_day is Some ==> {
            &&& window_has(w, event_day.unwrap().num())
            &&& event_value is Some
            &&& exists|k: int|
                0 <= k < dv.len() && (#[trigger] dv[k]).0 == event_day.unwrap().num() && dv[k].1
                    == pair(event_value.unwrap()) && forall|j: int|
                    0 <= j < k ==> !window_has(w, #[trigger] dv[j].0)
        },
        (event_day is Some && forall|a: int, b: int|
            0 <= a < b < dv.len() ==> (#[trigger] dv[a]).0 < (#[trigger] dv[b]).0) ==> forall|j: int|
            0 <= j < dv.len() && window_has(w, #[trigger] dv[j].0) ==> event_day.unwrap().num()
                <= dv[j].0,
{
    lemma_first_in_window(dv, w);
    let k = first_in_window(dv, w) as int;
    if k < dv.len() {
        assert(dv[k].0 == event_day.unwrap().num());
        if forall|a: int, b: int| 0 <= a < b < dv.len() ==> (#[trigger] dv[a]).0 < (#[trigger] dv[b]).0 {
            assert forall|j: int| 0 <= j < dv.len() && window_has(w, #[trigger] dv[j].0) implies event_day.unwrap().num()
                <= dv[j].0 by {
                if j < k {
                    assert(!window_has(w, dv[j].0));
                } else if j > k {
                    assert(dv[k].0 < dv[j].0);
                }
            }
        }
    }
}

/// The daily returns as `(day, value)` pairs.
pub fn day_value_pairs(rets: &Vec<DailyReturn>) -> (r: Vec<(Day, Dec)>)
    ensures
        r@.map_values(|x: (Day, Dec)| (x.0.num(), pair(x.1))) == day_values(
            rets@.map_values(|x: DailyReturn| return_view(x)),
        ),
{
    let mut out: Vec<(Day, Dec)> = Vec::new();
    let mut i: usize = 0;
    while i < rets.len()
        invariant
            i <= rets@.len(),
            out@.len() == i,
            forall|j: int|
                0 <= j < i ==> (#[trigger] out@[j]).0 == rets@[j].day && out@[j].1 == rets@[j].value,
        decreases rets.len() - i,
    {
        out.push((rets[i].day, rets[i].value));
        i += 1;
    }
    proof {
        assert(out@.map_values(|x: (Day, Dec)| (x.0.num(), pair(x.1))) =~= day_values(
            rets@.map_values(|x: DailyReturn| return_view(x)),
        ));
    }
    out
}

/// `sc` is the shock score of the series `obs` (any order): its event-day
/// return in `ew` against the daily returns in `bw`, the standard deviation's
/// square root taken by `sqrt`.
pub open spec fn shock_of<F: Fn(Dec) -> Option<Dec>>(
    sc: ShockScore,
    obs: Seq<ResponseObservation>,
    ew: EventWindow,
    bw: EventWindow,
    sqrt: F,
) -> bool {
    let s = stable_sort(obs);
    let dv = day_values(returns_of(s).unwrap());
    let b = values_in_window(dv, bw);
    &&& sc.asset_key == s[0].asset_key
    &&& sc.event_window_name == ew.name
    &&& sc.baseline_window_name == bw.name
    &&& event_point_of(sc.event_day, sc.event_return, dv, ew)
    &&& names(sc.baseline_mean, mean_of(b))
    &&& std_from(sc.baseline_std, variance_of(b), sqrt)
    &&& z_result_of(
        z_fields(
            sc.baseline_n,
            sc.baseline_mean,
            sc.baseline_std,
            sc.z_score,
            sc.low_baseline,
            sc.unavailable_reason,
        ),
        sc.event_return,
        b.len(),
        sc.baseline_mean,
        sc.baseline_std,
    )
    &&& sc.interpretation_boundary@ == shock_boundary_note()
}

/// Computes a [`ShockScore`] from one asset's full observation series (any
/// order, any windows present), the baseline's standard deviation taking its
/// square root by `sqrt`.
pub fn account_shock_score<F: Fn(Dec) -> Option<Dec>>(
    observations: Vec<crate::response::ResponseObservation>,
    event_window: &EventWindow,
    baseline_window: &EventWindow,
    sqrt: &F,
) -> (r: Result<ShockScore, MeasureError>)
    requires
        forall|x: Dec| sqrt.requires((x,)),
    ensures
        observations@.len() == 0 ==> (r matches Err(MeasureError::EmptySeries(m)) && m@
            == "<unknown>"@),
        validation_outcome(r, stable_sort(observations@)),
        (observations@.len() > 0 && series_valid(stable_sort(observations@))) ==> (r is Ok
            <==> returns_of(stable_sort(observations@)) is Some),
        (observations@.len() > 0 && series_valid(stable_sort(observations@)) && r is Err) ==> r
            == Err::<ShockScore, MeasureError>(MeasureError::ArithmeticOverflow),
        r matches Ok(sc) ==> shock_of(sc, observations@, *event_window, *baseline_window, *sqrt),
{
    let (asset_key, sorted) = match sorted_validated(observations) {
        Ok(v) => v,
        Err(e) => return Err(e),
    };
    let rets = match returns_from_sorted(&sorted) {
        Ok(v) => v,
        Err(e) => return Err(e),
    };
    let pairs = day_value_pairs(&rets);
    let (event_day, event_return, baseline_values) = split_by_windows(
        &pairs,
        event_window,
        baseline_window,
    );
    let z = compute_z_score(event_return, &baseline_values, sqrt);
    Ok(ShockScore {
        asset_key,
        event_window_name: event_window.name.clone(),
        baseline_window_name: baseline_window.name.clone(),
        event_day,
        event_return,
        baseline_n: z.baseline_n,
        baseline_mean: z.baseline_mean,
        baseline_std: z.baseline_std,
        z_score: z.z_score,
        low_baseline: z.low_baseline,
        unavailable_reason: z.unavailable_reason,
        interpretation_boundary: "Shock score is a descriptive z-score of one asset's event-day daily return against its own baseline-window daily-return distribution. It is not a statistical-significance test, not causal inference, and not a migration signal.",
    })
}

/// Shock score, horizon returns and activity anomaly of one asset, with
/// the measurement's evidence boundary.
#[derive(Debug, PartialEq, Eq)]
pub struct AssetShockReport {
    pub shock: ShockScore,
    pub horizons: HorizonReturns,
    pub activity: ActivityAnomaly,
    pub boundary: EvidenceBoundary,
}

/// Whether every step of a shock report fits: the series is valid and its
/// returns fit, the horizon returns fit, and the event and baseline rows are
/// valid with a volume ratio that fits.
pub open spec fn shock_report_fits(
    series: Seq<ResponseObservation>,
    ew: EventWindow,
    bw: EventWindow,
    hs: Seq<usize>,
) -> bool {
    let s = stable_sort(series);
    let p = priced_of(s);
    let wobs = series.filter(in_window(ew));
    let bobs = series.filter(in_window(bw));
    &&& series_valid(s)
    &&& returns_of(s) is Some
    &&& horizons_fit(p, last_on_or_before(p, ew.start.num()), hs)
    &&& series_valid(wobs)
    &&& series_valid(bobs)
    &&& median_ratio(median_of(volumes_of(wobs)), median_of(volumes_of(bobs))) is Some
}

/// Whether `e` is the error that building the shock report of `series`
/// reports: the first check that fails, in the order of the sorted series'
/// validity, its returns and horizons, then the validity of the event-window
/// and baseline-window rows, and otherwise the volume ratio's overflow.
pub open spec fn shock_report_error_is(
    e: MeasureError,
    series: Seq<ResponseObservation>,
    ew: EventWindow,
    bw: EventWindow,
    hs: Seq<usize>,
) -> bool {
    let s = stable_sort(series);
    let p = priced_of(s);
    let wobs = series.filter(in_window(ew));
    let bobs = series.filter(in_window(bw));
    if !series_valid(s) {
        validation_outcome(Err::<(), MeasureError>(e), s)
    } else if returns_of(s) is None || !horizons_fit(p, last_on_or_before(p, ew.start.num()), hs) {
        e == MeasureError::ArithmeticOverflow
    } else if !series_valid(wobs) {
        validation_outcome(Err::<(), MeasureError>(e), wobs)
    } else if !series_valid(bobs) {
        validation_outcome(Err::<(), MeasureError>(e), bobs)
    } else {
        e == MeasureError::ArithmeticOverflow
    }
}

/// The shock report of one asset of a project, over the rows read from the
/// project's response input. The baseline window is the override, else
/// `[response].baseline_window`; the event window is the override, else the
/// first declared response window other than the baseline window. The
/// response input and the asset's rows are checked first, then the windows.
pub fn load_asset_shock_report<F: Fn(Dec) -> Option<Dec>>(
    cfg: &ProjectConfig,
    rows: &Vec<ResponseObservation>,
    asset: &AssetKey,
    event_window_override: &Option<String>,
    baseline_window_override: &Option<String>,
    horizon_sessions: &Vec<usize>,
    sqrt: &F,
) -> (r: Result<AssetShockReport, MeasureProjectError>)
    requires
        forall|x: Dec| sqrt.requires((x,)),
        forall|i: int|
            0 <= i < cfg.windows@.len() ==> (#[trigger] cfg.windows@[i]).start.num()
                <= cfg.windows@[i].end.num(),
        forall|j: int|
            0 <= j < horizon_sessions@.len() ==> horizon_sessions@[j] + rows@.len() <= usize::MAX,
    ensures
        ({
            let ws = cfg.windows@;
            let series = rows@.filter(of_key(asset.0@));
            let bn = baseline_name(*cfg, *baseline_window_override);
            let b = first_named(ws, bn.unwrap(), 0);
            let e = event_index(*cfg, *event_window_override, b);
            let declared = key_declared(cfg.assets@, asset.0@);
            let has_series = cfg.inputs.response is Some && declared && series.len() > 0;
            let ready = has_series && bn is Some && b < ws.len() && e < ws.len();
            &&& cfg.inputs.response is None ==> r == Err::<AssetShockReport, MeasureProjectError>(
                MeasureProjectError::NoResponseInput,
            )
            &&& (cfg.inputs.response is Some && !declared) ==> (r matches Err(
                MeasureProjectError::UndeclaredAsset { asset: a },
            ) && a@ == asset.0@)
            &&& (cfg.inputs.response is Some && declared && series.len() == 0) ==> (r matches Err(
                MeasureProjectError::NoObservationsForAsset { asset: a, path },
            ) && a@ == asset.0@ && path@ == cfg.inputs.response.unwrap()@)
            &&& (has_series && bn is None) ==> r == Err::<AssetShockReport, MeasureProjectError>(
                MeasureProjectError::NoBaselineWindow,
            )
            &&& (has_series && bn is Some && b >= ws.len()) ==> (r matches Err(
                MeasureProjectError::WindowNotFound(m),
            ) && m@ == bn.unwrap())
            &&& (has_series && bn is Some && b < ws.len() && e >= ws.len()) ==> event_window_error(
                r,
                *cfg,
                *event_window_override,
                b,
            )
            &&& ready ==> (r is Ok <==> shock_report_fits(series, ws[e], ws[b], horizon_sessions@))
            &&& (ready && r is Err) ==> (r matches Err(MeasureProjectError::Measure(_)))
            &&& (ready && r is Err) ==> (r matches Err(MeasureProjectError::Measure(m))
                && shock_report_error_is(m, series, ws[e], ws[b], horizon_sessions@))
            &&& r matches Ok(rep) ==> {
                let n = cfg.coverage_declared@.len() as int;
                let slots = gap_slots(*cfg, seq![*asset], seq![ws[b], ws[e]], seq![series], 1);
                &&& ready
                &&& shock_of(rep.shock, series, ws[e], ws[b], *sqrt)
                &&& horizons_of(rep.horizons, series, ws[e].start, horizon_sessions@)
                &&& activity_of(
                    rep.activity,
                    *asset,
                    ws[e].name,
                    ws[b].name,
                    series.filter(in_window(ws[e])),
                    series.filter(in_window(ws[b])),
                )
                &&& rep.boundary.assumptions@.map_values(|t: String| t@) == seq![measure_assumption()]
                &&& rep.boundary.missing@.len() == n + slots.len() + if rep.shock.low_baseline {
                    1int
                } else {
                    0int
                }
                &&& rep.boundary.missing@.take(n) == cfg.coverage_declared@.map_values(
                    |g: CoverageGap| with_source(g, GapSource::Declared),
                )
                &&& gaps_for_slots(
                    rep.boundary.missing@.subrange(n, n + slots.len()),
                    *cfg,
                    seq![*asset],
                    seq![ws[b], ws[e]],
                    seq![series],
                    slots,
                )
                &&& rep.shock.low_baseline ==> {
                    let g = rep.boundary.missing@.last();
                    &&& g.kind matches MissingKind::Other(k) && k@ == "low_baseline"@
                    &&& g.scope@ == asset.0@
                    &&& g.reason@ == low_baseline_reason(rep.shock.baseline_n as nat)
                    &&& g.source == GapSource::Detected
                }
            }
        }),
{
    match response_rows_input(cfg) {
        Err(e) => {
            return Err(e);
        },
        Ok(_) => {},
    }
    let series = match require_asset_observations(cfg, rows, asset) {
        Ok(s) => s,
        Err(e) => {
            return Err(e);
        },
    };
    proof {
        rows@.lemma_filter_len(crate::report::market::of_key(asset.0@));
        assert forall|i: int| 0 <= i < series@.len() implies (#[trigger] series@[i]).asset_key.0@
            == asset.0@ by {
            rows@.lemma_filter_contains_rev(crate::report::market::of_key(asset.0@), series@[i]);
        }
    }
    let b = match resolve_baseline_window(cfg, baseline_window_override) {
        Ok(k) => k,
        Err(e) => {
            return Err(e);
        },
    };
    let e = match resolve_event_window(cfg, event_window_override, &cfg.windows[b].name) {
        Ok(k) => k,
        Err(err) => {
            return Err(err);
        },
    };
    let ghost ws = cfg.windows@;
    let ghost sv = series@;
    assert(b as int == first_named(ws, baseline_name(*cfg, *baseline_window_override).unwrap(), 0));
    assert(e as int == event_index(*cfg, *event_window_override, b as int));
    let baseline_window = &cfg.windows[b];
    let event_window = &cfg.windows[e];
    let ghost s = stable_sort(sv);
    proof {
        crate::sort::lemma_stable_sort(sv);
        lemma_first_invalid_le(s, 0);
    }
    let shock = match account_shock_score(copy_rows(&series), event_window, baseline_window, sqrt) {
        Ok(sc) => sc,
        Err(err) => {
            proof {
                assert(!shock_report_fits(sv, ws[e as int], ws[b as int], horizon_sessions@));
            }
            return Err(MeasureProjectError::Measure(err));
        },
    };
    let horizons = match cumulative_return_from_event(
        copy_rows(&series),
        event_window.start,
        horizon_sessions,
    ) {
        Ok(h) => h,
        Err(err) => {
            proof {
                assert(!shock_report_fits(sv, ws[e as int], ws[b as int], horizon_sessions@));
            }
            return Err(MeasureProjectError::Measure(err));
        },
    };
    proof {
        crate::sort::lemma_stable_sort_all(
            series@,
            |o: ResponseObservation| o.asset_key.0@ == asset.0@,
        );
    }
    let event_obs = rows_in_window(&series, event_window);
    let baseline_obs = rows_in_window(&series, baseline_window);
    proof {
        lemma_first_invalid_le(event_obs@, 0);
        lemma_first_invalid_le(baseline_obs@, 0);
    }
    let activity = match account_activity_anomaly(
        asset.clone(),
        event_window.name.clone(),
        baseline_window.name.clone(),
        event_obs,
        baseline_obs,
    ) {
        Ok(a) => a,
        Err(err) => {
            proof {
                assert(!shock_report_fits(sv, ws[e as int], ws[b as int], horizon_sessions@));
            }
            return Err(MeasureProjectError::Measure(err));
        },
    };
    let mut assets: Vec<AssetKey> = Vec::new();
    assets.push(asset.clone());
    let mut windows: Vec<EventWindow> = Vec::new();
    windows.push(baseline_window.clone());
    windows.push(event_window.clone());
    let mut series_by_asset: Vec<Vec<ResponseObservation>> = Vec::new();
    series_by_asset.push(series);
    let boundary = build_measure_boundary(
        cfg,
        &assets,
        &windows,
        &series_by_asset,
        shock.low_baseline,
        shock.baseline_n,
    );
    proof {
        let svs = series_by_asset@.map_values(|v: Vec<ResponseObservation>| v@);
        let bw = ws[b as int];
        let ew = ws[e as int];
        assert(svs =~= seq![sv]);
        assert(assets@ =~= seq![*asset]);
        assert(assets@.take(1) =~= assets@);
        assert(joined_keys(assets@) == asset.0@);
        assert(windows@.len() == 2);
        let w0 = windows@[0];
        let w1 = windows@[1];
        assert(w0.start == bw.start && w0.end == bw.end && w0.name == bw.name);
        assert(w1.start == ew.start && w1.end == ew.end && w1.name == ew.name);
        assert(missing_in(*cfg, *asset, w0, sv) == missing_in(*cfg, *asset, bw, sv));
        assert(missing_in(*cfg, *asset, w1, sv) == missing_in(*cfg, *asset, ew, sv));
        assert(gap_slots_of(*cfg, assets@, windows@, svs, 0, 0) =~= Seq::<(int, int)>::empty());
        assert(gap_slots_of(*cfg, seq![*asset], seq![bw, ew], seq![sv], 0, 0) =~= Seq::<(int, int)>::empty());
        assert(gap_slots_of(*cfg, assets@, windows@, svs, 0, 1) == gap_slots_of(*cfg, seq![*asset], seq![bw, ew], seq![sv], 0, 1));
        assert(gap_slots_of(*cfg, assets@, windows@, svs, 0, 2) == gap_slots_of(*cfg, seq![*asset], seq![bw, ew], seq![sv], 0, 2));
        assert(gap_slots(*cfg, assets@, windows@, svs, 0) =~= Seq::<(int, int)>::empty());
        assert(gap_slots(*cfg, seq![*asset], seq![bw, ew], seq![sv], 0) =~= Seq::<(int, int)>::empty());
        assert(gap_slots(*cfg, assets@, windows@, svs, 1) =~= gap_slots_of(*cfg, assets@, windows@, svs, 0, 2));
        assert(gap_slots(*cfg, seq![*asset], seq![bw, ew], seq![sv], 1) =~= gap_slots_of(*cfg, seq![*asset], seq![bw, ew], seq![sv], 0, 2));
        let slots = gap_slots(*cfg, assets@, windows@, svs, 1);
        let n = cfg.coverage_declared@.len() as int;
        let gs = boundary.missing@.subrange(n, n + slots.len());
        assert forall|t: int| 0 <= t < slots.len() implies session_gap(
            #[trigger] gs[t],
            *cfg,
            seq![*asset][slots[t].0],
            seq![bw, ew][slots[t].1],
            seq![sv][slots[t].0],
        ) by {
            assert(slots[t].0 == 0);
            assert(slots[t].1 == 0 || slots[t].1 == 1);
            assert(session_gap(gs[t], *cfg, assets@[0], windows@[slots[t].1], svs[0]));
            assert(session_gap(gs[t], *cfg, *asset, w0, sv) == session_gap(gs[t], *cfg, *asset, bw, sv));
            assert(session_gap(gs[t], *cfg, *asset, w1, sv) == session_gap(gs[t], *cfg, *asset, ew, sv));
        }
    }
    Ok(AssetShockReport { shock, horizons, activity, boundary })
}

} // verus!
