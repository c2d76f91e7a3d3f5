//! Divergence between two assets' daily returns on matched trading days.
//!
//! `D_t = r_A,t - r_B,t`, computed only on the days where both assets have a
//! computable daily return. There is no forward-fill: a session observed for
//! A but not B (or vice versa) is excluded, never treated as a zero return.
use crate::coverage::EvidenceBoundary;
use crate::day::Day;
use crate::dec::{dec_sub, pair, psub, Dec};
use crate::event::EventWindow;
use crate::identity::AssetKey;
use crate::measure::daily::{
    lemma_first_invalid_le, returns_from_sorted, returns_of, series_valid, sorted_validated,
    validation_outcome, MeasureError,
};
use crate::measure::shock::{
    day_value_pairs, day_values, event_point_of, split_by_windows, values_in_window, z_fields,
};
use crate::measure::stats::{
    compute_z_score, mean_of, names, std_from, variance_of, z_result_of, ZScoreUnavailable,
};
use crate::response::ResponseObservation;
use crate::sort::stable_sort;
use crate::measure::project_support::{
    baseline_name, build_measure_boundary, event_index, event_window_error, gap_slots,
    gaps_for_slots, joined_keys, lemma_gap_slots_in_range, lemma_gap_slots_same_spans, low_baseline_reason,
    measure_assumption, require_asset_observations, resolve_baseline_window, resolve_event_window,
    response_rows_input, session_gap, MeasureProjectError,
};
use crate::coverage::{with_source, CoverageGap, GapSource, MissingKind};
use crate::project::validate::key_declared;
use crate::project::ProjectConfig;
use crate::report::market::{copy_rows, first_named, of_key};
use vstd::prelude::*;

verus! {

#[derive(Debug, PartialEq, Eq)]
pub struct DivergenceSummary {
    pub asset_a: AssetKey,
    pub asset_b: AssetKey,
    pub event_window_name: String,
    pub baseline_window_name: String,
    /// Number of days (across the whole series) where both assets have a
    /// computable daily return.
    pub matched_days: usize,
    pub event_day: Option<Day>,
    pub event_divergence: Option<Dec>,
    pub baseline_n: usize,
    pub baseline_mean: Option<Dec>,
    pub baseline_std: Option<Dec>,
    pub z_score: Option<Dec>,
    /// True when z was computed but baseline_n is below the adequacy floor.
    pub low_baseline: bool,
    pub unavailable_reason: Option<ZScoreUnavailable>,
    pub interpretation_boundary: &'static str,
    pub boundary: EvidenceBoundary,
}

/// The interpretation note of every divergence summary.
pub open spec fn divergence_boundary_note() -> Seq<char> {
    "Divergence is a descriptive comparison of two assets' daily returns on matched trading days only (no forward-fill for unmatched sessions). It is not a cointegration test, pairs-trading signal, or migration inference."@
}

/// The value of the last entry of `rb` on day `d`, if any.
pub open spec fn value_on(rb: Seq<(int, (int, int))>, d: int) -> Option<(int, int)>
    decreases rb.len(),
{
    if rb.len() == 0 {
        None
    } else if rb.last().0 == d {
        Some(rb.last().1)
    } else {
        value_on(rb.drop_last(), d)
    }
}

/// `r_A - r_B` for each of the first `n` returns of A that B matches by day,
/// in A's order; `None` once a difference does not fit.
pub open spec fn divergences_upto(ra: Seq<(int, (int, int))>, rb: Seq<(int, (int, int))>, n: int) -> Option<
    Seq<(int, (int, int))>,
>
    decreases n,
{
    if n <= 0 {
        Some(Seq::empty())
    } else {
        match divergences_upto(ra, rb, n - 1) {
            None => None,
            Some(acc) => match value_on(rb, ra[n - 1].0) {
                None => Some(acc),
                Some(vb) => match psub(ra[n - 1].1, vb) {
                    Some(d) => Some(acc.push((ra[n - 1].0, d))),
                    None => None,
                },
            },
        }
    }
}

proof fn lemma_div_none_stays(ra: Seq<(int, (int, int))>, rb: Seq<(int, (int, int))>, n: int, m: int)
    requires
        n <= m,
        divergences_upto(ra, rb, n) is None,
    ensures
        divergences_upto(ra, rb, m) is None,
    decreases m - n,
{
    if n < m {
        lemma_div_none_stays(ra, rb, n, m - 1);
    }
}

/// No forward-fill: each divergence is taken on a day on which both assets
/// have a daily return and is the difference of the two returns of that day;
/// every day of the first asset that the second one also has yields one,
/// and there are no more divergences than returns of the first asset.
pub proof fn law_divergence_days_matched(ra: Seq<(int, (int, int))>, rb: Seq<(int, (int, int))>, n: int)
    requires
        0 <= n <= ra.len(),
        divergences_upto(ra, rb, n) is Some,
    ensures
        divergences_upto(ra, rb, n).unwrap().len() <= n,
        forall|t: int|
            0 <= t < divergences_upto(ra, rb, n).unwrap().len() ==> exists|i: int|
                0 <= i < n && ra[i].0 == (#[trigger] divergences_upto(ra, rb, n).unwrap()[t]).0
                    && value_on(rb, ra[i].0) is Some && psub(ra[i].1, value_on(rb, ra[i].0).unwrap())
                    == Some(divergences_upto(ra, rb, n).unwrap()[t].1),
        forall|i: int|
            0 <= i < n && #[trigger] value_on(rb, ra[i].0) is Some ==> exists|t: int|
                0 <= t < divergences_upto(ra, rb, n).unwrap().len()
                    && divergences_upto(ra, rb, n).unwrap()[t].0 == ra[i].0,
    decreases n,
{
    if n > 0 {
        law_divergence_days_matched(ra, rb, n - 1);
        let acc = divergences_upto(ra, rb, n - 1).unwrap();
        let dv = divergences_upto(ra, rb, n).unwrap();
        match value_on(rb, ra[n - 1].0) {
            None => {
                assert(dv == acc);
            },
            Some(vb) => {
                let d = psub(ra[n - 1].1, vb).unwrap();
                assert(dv == acc.push((ra[n - 1].0, d)));
                assert forall|t: int| 0 <= t < dv.len() implies exists|i: int|
                    0 <= i < n && ra[i].0 == (#[trigger] dv[t]).0 && value_on(rb, ra[i].0) is Some
                        && psub(ra[i].1, value_on(rb, ra[i].0).unwrap()) == Some(dv[t].1) by {
                    if t == acc.len() {
                        assert(ra[n - 1].0 == dv[t].0);
                    } else {
                        assert(dv[t] == acc[t]);
                    }
                }
                assert forall|i: int| 0 <= i < n && #[trigger] value_on(rb, ra[i].0) is Some implies exists|t: int|
                    0 <= t < dv.len() && dv[t].0 == ra[i].0 by {
                    if i == n - 1 {
                        assert(dv[acc.len() as int].0 == ra[i].0);
                    } else {
                        let t = choose|t: int| 0 <= t < acc.len() && acc[t].0 == ra[i].0;
                        assert(dv[t] == acc[t]);
                    }
                }
            },
        }
    }
}

fn find_value_on(rb: &Vec<(Day, Dec)>, d: Day) -> (r: Option<Dec>)
    ensures
        r is Some <==> value_on(rb@.map_values(|x: (Day, Dec)| (x.0.num(), pair(x.1))), d.num()) is Some,
        r is Some ==> pair(r.unwrap()) == value_on(
            rb@.map_values(|x: (Day, Dec)| (x.0.num(), pair(x.1))),
            d.num(),
        ).unwrap(),
{
    let ghost v = rb@.map_values(|x: (Day, Dec)| (x.0.num(), pair(x.1)));
    let mut k: usize = rb.len();
    proof {
        assert(v.take(k as int) =~= v);
    }
    while k > 0
        invariant
            k <= rb@.len(),
            v == rb@.map_values(|x: (Day, Dec)| (x.0.num(), pair(x.1))),
            value_on(v, d.num()) == value_on(v.take(k as int), d.num()),
        decreases k,
    {
        proof {
            assert(v.take(k as int).drop_last() =~= v.take(k - 1));
        }
        if rb[k - 1].0.number() == d.number() {
            return Some(rb[k - 1].1);
        }
        k -= 1;
    }
    None
}

/// `sm` is the divergence of the series `obs_a` and `obs_b` (any order):
/// its event-day value in `ew` against the values in `bw`, the standard
/// deviation's square root taken by `sqrt`.
pub open spec fn divergence_of<F: Fn(Dec) -> Option<Dec>>(
    sm: DivergenceSummary,
    obs_a: Seq<ResponseObservation>,
    obs_b: Seq<ResponseObservation>,
    ew: EventWindow,
    bw: EventWindow,
    sqrt: F,
) -> bool {
    let sa = stable_sort(obs_a);
    let sb = stable_sort(obs_b);
    let ra = day_values(returns_of(sa).unwrap());
    let rb = day_values(returns_of(sb).unwrap());
    let dv = divergences_upto(ra, rb, ra.len() as int).unwrap();
    let b = values_in_window(dv, bw);
    &&& returns_of(sa) is Some && returns_of(sb) is Some
    &&& divergences_upto(ra, rb, ra.len() as int) is Some
    &&& sm.asset_a == sa[0].asset_key
    &&& sm.asset_b == sb[0].asset_key
    &&& sm.event_window_name == ew.name
    &&& sm.baseline_window_name == bw.name
    &&& sm.matched_days == dv.len()
    &&& event_point_of(sm.event_day, sm.event_divergence, dv, ew)
    &&& names(sm.baseline_mean, mean_of(b))
    &&& std_from(sm.baseline_std, variance_of(b), sqrt)
    &&& z_result_of(
        z_fields(
            sm.baseline_n,
            sm.baseline_mean,
            sm.baseline_std,
            sm.z_score,
            sm.low_baseline,
            sm.unavailable_reason,
        ),
        sm.event_divergence,
        b.len(),
        sm.baseline_mean,
        sm.baseline_std,
    )
    &&& sm.interpretation_boundary@ == divergence_boundary_note()
}

/// Whether both series are valid and every return and difference fits.
pub open spec fn divergence_fits(obs_a: Seq<ResponseObservation>, obs_b: Seq<ResponseObservation>) -> bool {
    let sa = stable_sort(obs_a);
    let sb = stable_sort(obs_b);
    &&& series_valid(sa)
    &&& series_valid(sb)
    &&& returns_of(sa) is Some
    &&& returns_of(sb) is Some
    &&& divergences_upto(
        day_values(returns_of(sa).unwrap()),
        day_values(returns_of(sb).unwrap()),
        returns_of(sa).unwrap().len() as int,
    ) is Some
}

/// Whether `e` is the error that the divergence of the two non-empty series
/// reports: the first check that fails, in the order validity of the first
/// sorted series, of the second, and otherwise an overflow.
pub open spec fn divergence_error_is(
    e: MeasureError,
    obs_a: Seq<ResponseObservation>,
    obs_b: Seq<ResponseObservation>,
) -> bool {
    let sa = stable_sort(obs_a);
    let sb = stable_sort(obs_b);
    if !series_valid(sa) {
        validation_outcome(Err::<(), MeasureError>(e), sa)
    } else if !series_valid(sb) {
        validation_outcome(Err::<(), MeasureError>(e), sb)
    } else {
        e == MeasureError::ArithmeticOverflow
    }
}

/// # Errors
/// Empty series, mixed `asset_key`s, or duplicate `(asset_key, day)` rows,
/// for either asset's observations; a return or difference that does not fit.
pub fn account_divergence<F: Fn(Dec) -> Option<Dec>>(
    obs_a: Vec<ResponseObservation>,
    obs_b: Vec<ResponseObservation>,
    event_window: &EventWindow,
    baseline_window: &EventWindow,
    sqrt: &F,
) -> (r: Result<DivergenceSummary, MeasureError>)
    requires
        forall|x: Dec| sqrt.requires((x,)),
    ensures
        obs_a@.len() == 0 ==> (r matches Err(MeasureError::EmptySeries(m)) && m@ == "<unknown>"@),
        validation_outcome(r, stable_sort(obs_a@)),
        (obs_a@.len() > 0 && series_valid(stable_sort(obs_a@))) ==> (obs_b@.len() == 0
            ==> (r matches Err(MeasureError::EmptySeries(m)) && m@ == "<unknown>"@)),
        (obs_a@.len() > 0 && series_valid(stable_sort(obs_a@))) ==> validation_outcome(
            r,
            stable_sort(obs_b@),
        ),
        r matches Ok(sm) ==> divergence_of(sm, obs_a@, obs_b@, *event_window, *baseline_window, *sqrt)
            && sm.boundary.missing@.len() == 0 && sm.boundary.assumptions@.len() == 0,
        (obs_a@.len() > 0 && series_valid(stable_sort(obs_a@)) && obs_b@.len() > 0 && series_valid(
            stable_sort(obs_b@),
        )) ==> (r is Ok <==> (returns_of(stable_sort(obs_a@)) is Some && returns_of(
            stable_sort(obs_b@),
        ) is Some && divergences_upto(
            day_values(returns_of(stable_sort(obs_a@)).unwrap()),
            day_values(returns_of(stable_sort(obs_b@)).unwrap()),
            returns_of(stable_sort(obs_a@)).unwrap().len() as int,
        ) is Some)),
        (obs_a@.len() > 0 && series_valid(stable_sort(obs_a@)) && obs_b@.len() > 0 && series_valid(
            stable_sort(obs_b@),
        ) && r is Err) ==> r == Err::<DivergenceSummary, MeasureError>(
            MeasureError::ArithmeticOverflow,
        ),
{
    let (asset_a, sorted_a) = match sorted_validated(obs_a) {
        Ok(v) => v,
        Err(e) => return Err(e),
    };
    let (asset_b, sorted_b) = match sorted_validated(obs_b) {
        Ok(v) => v,
        Err(e) => return Err(e),
    };
    let returns_a = match returns_from_sorted(&sorted_a) {
        Ok(v) => v,
        Err(e) => return Err(e),
    };
    let returns_b = match returns_from_sorted(&sorted_b) {
        Ok(v) => v,
        Err(e) => return Err(e),
    };
    let pa = day_value_pairs(&returns_a);
    let pb = day_value_pairs(&returns_b);
    let ghost ra = pa@.map_values(|x: (Day, Dec)| (x.0.num(), pair(x.1)));
    let ghost rb = pb@.map_values(|x: (Day, Dec)| (x.0.num(), pair(x.1)));
    let mut divs: Vec<(Day, Dec)> = Vec::new();
    let mut i: usize = 0;
    proof {
        assert(divs@.map_values(|x: (Day, Dec)| (x.0.num(), pair(x.1))) =~= Seq::<
            (int, (int, int)),
        >::empty());
    }
    while i < pa.len()
        invariant
            obs_a@.len() > 0 && series_valid(stable_sort(obs_a@)),
            obs_b@.len() > 0 && series_valid(stable_sort(obs_b@)),
            returns_of(stable_sort(obs_a@)) is Some,
            returns_of(stable_sort(obs_b@)) is Some,
            ra == day_values(returns_of(stable_sort(obs_a@)).unwrap()),
            rb == day_values(returns_of(stable_sort(obs_b@)).unwrap()),
            i <= pa@.len(),
            ra == pa@.map_values(|x: (Day, Dec)| (x.0.num(), pair(x.1))),
            rb == pb@.map_values(|x: (Day, Dec)| (x.0.num(), pair(x.1))),
            divergences_upto(ra, rb, i as int) == Some(
                divs@.map_values(|x: (Day, Dec)| (x.0.num(), pair(x.1))),
            ),
        decreases pa.len() - i,
    {
        let (d, va) = pa[i];
        let ghost before = divs@;
        match find_value_on(&pb, d) {
            Some(vb) => match dec_sub(&va, &vb) {
                Some(x) => {
                    divs.push((d, x));
                    proof {
                        assert(divs@.map_values(|x: (Day, Dec)| (x.0.num(), pair(x.1)))
                            =~= before.map_values(|x: (Day, Dec)| (x.0.num(), pair(x.1))).push(
                            (d.num(), pair(x)),
                        ));
                    }
                },
                None => {
                    proof {
                        lemma_div_none_stays(ra, rb, i + 1, ra.len() as int);
                    }
                    return Err(MeasureError::ArithmeticOverflow);
                },
            },
            None => {},
        }
        i += 1;
    }
    let (event_day, event_divergence, baseline_values) = split_by_windows(
        &divs,
        event_window,
        baseline_window,
    );
    let z = compute_z_score(event_divergence, &baseline_values, sqrt);
    Ok(DivergenceSummary {
        asset_a,
        asset_b,
        event_window_name: event_window.name.clone(),
        baseline_window_name: baseline_window.name.clone(),
        matched_days: divs.len(),
        event_day,
        event_divergence,
        baseline_n: z.baseline_n,
        baseline_mean: z.baseline_mean,
        baseline_std: z.baseline_std,
        z_score: z.z_score,
        low_baseline: z.low_baseline,
        unavailable_reason: z.unavailable_reason,
        interpretation_boundary: "Divergence is a descriptive comparison of two assets' daily returns on matched trading days only (no forward-fill for unmatched sessions). It is not a cointegration test, pairs-trading signal, or migration inference.",
        boundary: EvidenceBoundary::new(),
    })
}

/// The divergence of two assets of a project, over the rows read from the
/// project's response input, with the measurement's evidence boundary. The
/// response input and both assets' rows are checked first, then the windows,
/// which are chosen as for the shock report.
pub fn load_divergence_summary<F: Fn(Dec) -> Option<Dec>>(
    cfg: &ProjectConfig,
    rows: &Vec<ResponseObservation>,
    asset_a: &AssetKey,
    asset_b: &AssetKey,
    event_window_override: &Option<String>,
    baseline_window_override: &Option<String>,
    sqrt: &F,
) -> (r: Result<DivergenceSummary, MeasureProjectError>)
    requires
        forall|x: Dec| sqrt.requires((x,)),
        forall|i: int|
            0 <= i < cfg.windows@.len() ==> (#[trigger] cfg.windows@[i]).start.num()
                <= cfg.windows@[i].end.num(),
    ensures
        ({
            let ws = cfg.windows@;
            let sa = rows@.filter(of_key(asset_a.0@));
            let sb = rows@.filter(of_key(asset_b.0@));
            let bn = baseline_name(*cfg, *baseline_window_override);
            let b = first_named(ws, bn.unwrap(), 0);
            let e = event_index(*cfg, *event_window_override, b);
            let da = key_declared(cfg.assets@, asset_a.0@);
            let db = key_declared(cfg.assets@, asset_b.0@);
            let has_a = cfg.inputs.response is Some && da && sa.len() > 0;
            let has = has_a && db && sb.len() > 0;
            let ready = has && bn is Some && b < ws.len() && e < ws.len();
            &&& cfg.inputs.response is None ==> r == Err::<DivergenceSummary, MeasureProjectError>(
                MeasureProjectError::NoResponseInput,
            )
            &&& (cfg.inputs.response is Some && !da) ==> (r matches Err(
                MeasureProjectError::UndeclaredAsset { asset: a },
            ) && a@ == asset_a.0@)
            &&& (cfg.inputs.response is Some && da && sa.len() == 0) ==> (r matches Err(
                MeasureProjectError::NoObservationsForAsset { asset: a, path },
            ) && a@ == asset_a.0@ && path@ == cfg.inputs.response.unwrap()@)
            &&& (has_a && !db) ==> (r matches Err(MeasureProjectError::UndeclaredAsset { asset: a })
                && a@ == asset_b.0@)
            &&& (has_a && db && sb.len() == 0) ==> (r matches Err(
                MeasureProjectError::NoObservationsForAsset { asset: a, path },
            ) && a@ == asset_b.0@ && path@ == cfg.inputs.response.unwrap()@)
            &&& (has && bn is None) ==> r == Err::<DivergenceSummary, MeasureProjectError>(
                MeasureProjectError::NoBaselineWindow,
            )
            &&& (has && bn is Some && b >= ws.len()) ==> (r matches Err(
                MeasureProjectError::WindowNotFound(m),
            ) && m@ == bn.unwrap())
            &&& (has && bn is Some && b < ws.len() && e >= ws.len()) ==> event_window_error(
                r,
                *cfg,
                *event_window_override,
                b,
            )
            &&& ready ==> (r is Ok <==> divergence_fits(sa, sb))
            &&& (ready && r is Err) ==> (r matches Err(MeasureProjectError::Measure(_)))
            &&& (ready && r is Err) ==> (r matches Err(MeasureProjectError::Measure(m))
                && divergence_error_is(m, sa, sb))
            &&& r matches Ok(sm) ==> {
                let n = cfg.coverage_declared@.len() as int;
                let assets = seq![*asset_a, *asset_b];
                let slots = gap_slots(*cfg, assets, seq![ws[b], ws[e]], seq![sa, sb], 2);
                &&& ready
                &&& divergence_of(sm, sa, sb, ws[e], ws[b], *sqrt)
                &&& sm.boundary.assumptions@.map_values(|t: String| t@) == seq![measure_assumption()]
                &&& sm.boundary.missing@.len() == n + slots.len() + if sm.low_baseline {
                    1int
                } else {
                    0int
                }
                &&& sm.boundary.missing@.take(n) == cfg.coverage_declared@.map_values(
                    |g: CoverageGap| with_source(g, GapSource::Declared),
                )
                &&& gaps_for_slots(
                    sm.boundary.missing@.subrange(n, n + slots.len()),
                    *cfg,
                    assets,
                    seq![ws[b], ws[e]],
                    seq![sa, sb],
                    slots,
                )
                &&& sm.low_baseline ==> {
                    let g = sm.boundary.missing@.last();
                    &&& g.kind matches MissingKind::Other(k) && k@ == "low_baseline"@
                    &&& g.scope@ == asset_a.0@ + "+"@ + asset_b.0@
                    &&& g.reason@ == low_baseline_reason(sm.baseline_n as nat)
                    &&& g.source == GapSource::Detected
                }
            }
        }),
{
    match response_rows_input(cfg) {
        Err(e) => {
            return Err(e);
        },
        Ok(_) => {},
    }
    let series_a = match require_asset_observations(cfg, rows, asset_a) {
        Ok(s) => s,
        Err(e) => {
            return Err(e);
        },
    };
    let series_b = match require_asset_observations(cfg, rows, asset_b) {
        Ok(s) => s,
        Err(e) => {
            return Err(e);
        },
    };
    let b = match resolve_baseline_window(cfg, baseline_window_override) {
        Ok(k) => k,
        Err(e) => {
            return Err(e);
        },
    };
    let e = match resolve_event_window(cfg, event_window_override, &cfg.windows[b].name) {
        Ok(k) => k,
        Err(err) => {
            return Err(err);
        },
    };
    let ghost ws = cfg.windows@;
    assert(b as int == first_named(ws, baseline_name(*cfg, *baseline_window_override).unwrap(), 0));
    assert(e as int == event_index(*cfg, *event_window_override, b as int));
    let baseline_window = &cfg.windows[b];
    let event_window = &cfg.windows[e];
    proof {
        crate::sort::lemma_stable_sort(series_a@);
        crate::sort::lemma_stable_sort(series_b@);
        lemma_first_invalid_le(stable_sort(series_a@), 0);
        lemma_first_invalid_le(stable_sort(series_b@), 0);
        assert forall|i: int| 0 <= i < series_a@.len() implies (#[trigger] series_a@[i]).asset_key.0@
            == asset_a.0@ by {
            rows@.lemma_filter_contains_rev(crate::report::market::of_key(asset_a.0@), series_a@[i]);
        }
        assert forall|i: int| 0 <= i < series_b@.len() implies (#[trigger] series_b@[i]).asset_key.0@
            == asset_b.0@ by {
            rows@.lemma_filter_contains_rev(crate::report::market::of_key(asset_b.0@), series_b@[i]);
        }
        crate::sort::lemma_stable_sort_all(series_a@, |o: ResponseObservation| o.asset_key.0@ == asset_a.0@);
        crate::sort::lemma_stable_sort_all(series_b@, |o: ResponseObservation| o.asset_key.0@ == asset_b.0@);
    }
    let mut summary = match account_divergence(
        copy_rows(&series_a),
        copy_rows(&series_b),
        event_window,
        baseline_window,
        sqrt,
    ) {
        Ok(s) => s,
        Err(err) => {
            return Err(MeasureProjectError::Measure(err));
        },
    };
    let ghost sa = series_a@;
    let ghost sb = series_b@;
    let mut assets: Vec<AssetKey> = Vec::new();
    assets.push(asset_a.clone());
    assets.push(asset_b.clone());
    let mut windows: Vec<EventWindow> = Vec::new();
    windows.push(baseline_window.clone());
    windows.push(event_window.clone());
    let mut series_by_asset: Vec<Vec<ResponseObservation>> = Vec::new();
    series_by_asset.push(series_a);
    series_by_asset.push(series_b);
    summary.boundary = build_measure_boundary(
        cfg,
        &assets,
        &windows,
        &series_by_asset,
        summary.low_baseline,
        summary.baseline_n,
    );
    proof {
        let svs = series_by_asset@.map_values(|v: Vec<ResponseObservation>| v@);
        let bw = ws[b as int];
        let ew = ws[e as int];
        assert(svs =~= seq![sa, sb]);
        assert(assets@ =~= seq![*asset_a, *asset_b]);
        assert(assets@.take(1) =~= seq![*asset_a]);
        assert(assets@.take(2) =~= assets@);
        assert(assets@.take(2).drop_last() =~= assets@.take(1));
        assert(joined_keys(assets@.take(1)) == asset_a.0@);
        assert(joined_keys(assets@) == asset_a.0@ + "+"@ + asset_b.0@);
        assert(windows@ =~= seq![windows@[0], windows@[1]]);
        let wv = seq![bw, ew];
        lemma_gap_slots_same_spans(*cfg, assets@, windows@, wv, svs, 2);
        lemma_gap_slots_in_range(*cfg, assets@, windows@, svs, 2);
        let slots = gap_slots(*cfg, assets@, windows@, svs, 2);
        let n = cfg.coverage_declared@.len() as int;
        let gs = summary.boundary.missing@.subrange(n, n + slots.len());
        assert forall|t: int| 0 <= t < slots.len() implies session_gap(
            #[trigger] gs[t],
            *cfg,
            assets@[slots[t].0],
            wv[slots[t].1],
            svs[slots[t].0],
        ) by {
            assert(0 <= slots[t].1 < 2);
            assert(session_gap(gs[t], *cfg, assets@[slots[t].0], windows@[slots[t].1], svs[slots[t].0]));
        }
    }
    Ok(summary)
}

} // verus!
