//! Same-date reference-to-token response gaps.
//!
//! `gap = token_return - reference_return`. This is descriptive accounting:
//! the reference and token may use different market cutoffs, so the result
//! is not a synchronized hedge error, beta, or causal transmission estimate.
use crate::coverage::EvidenceBoundary;
use crate::day::Day;
use crate::dec::{dec_is_zero, dec_lt, dec_sub, pair, psub, sub_is_exact, Dec};
use crate::identity::AssetKey;
use crate::ingest::reference_returns::ReferenceReturnObservation;
use crate::measure::stats::names;
use crate::coverage::{CoverageGap, MissingKind};
use crate::event::EventWindow;
use crate::measure::daily::{
    daily_returns, return_view, returns_error_is, returns_of, series_valid, DailyReturn,
};
use crate::measure::project_support::{
    baseline_name, build_measure_boundary, event_index, event_window_error, gap_slots, gap_slots_of, gaps_for_slots,
    measure_assumption, missing_in, session_gap,
    reference_rows_input, require_asset_observations, resolve_baseline_window,
    resolve_event_window, response_rows_input, MeasureProjectError,
};
use crate::project::ProjectConfig;
use crate::report::market::{copy_rows, first_named, of_key};
use crate::coverage::{with_source, GapSource};
use crate::event::window_has;
use crate::project::validate::key_declared;
use crate::sort::stable_sort;
use crate::day::date_text;
use crate::response::ResponseObservation;
use vstd::prelude::*;
use vstd::string::*;

verus! {

#[derive(Debug, PartialEq, Eq)]
pub struct ResponseGapSummary {
    pub asset_key: AssetKey,
    pub reference_key: String,
    pub event_day: Day,
    pub reference_return: Dec,
    pub token_return: Option<Dec>,
    /// `token_return - reference_return`.
    pub response_gap: Option<Dec>,
    /// `Some(true)` only when both non-zero returns have the same sign.
    pub direction_match: Option<bool>,
    pub source_label: String,
    pub source_url: String,
    pub reference_cutoff: String,
    pub interpretation_boundary: &'static str,
    pub boundary: EvidenceBoundary,
}

/// The interpretation note of every response gap.
pub open spec fn response_gap_note() -> Seq<char> {
    "Response gap is the token's same-date daily return minus a frozen source-reported reference return. It is not a synchronized intraday comparison, beta, tracking-error model, pass-through coefficient, or causal transmission estimate."@
}

/// Whether two non-zero returns point the same way; `None` if either is zero.
pub open spec fn direction_of(token: int, reference: int) -> Option<bool> {
    if token == 0 || reference == 0 {
        None
    } else {
        Some((token > 0 && reference > 0) || (token < 0 && reference < 0))
    }
}

/// Whether two returns point the same way: with neither return zero, they
/// match exactly when both are gains or both are losses (two negative
/// returns match); with either one zero there is no direction to compare.
pub proof fn law_direction_by_sign(token: int, reference: int)
    ensures
        (token != 0 && reference != 0) ==> direction_of(token, reference) is Some,
        (token > 0 && reference > 0) ==> direction_of(token, reference) == Some(true),
        (token < 0 && reference < 0) ==> direction_of(token, reference) == Some(true),
        (token > 0 && reference < 0) ==> direction_of(token, reference) == Some(false),
        (token < 0 && reference > 0) ==> direction_of(token, reference) == Some(false),
        (token == 0 || reference == 0) ==> direction_of(token, reference) is None,
{
}

/// The gap of a token return against a frozen reference return. A gap that
/// does not fit a decimal is missing.
pub fn account_response_gap(reference: ReferenceReturnObservation, token_return: Option<Dec>) -> (r:
    ResponseGapSummary)
    ensures
        r.asset_key == reference.asset_key,
        r.reference_key == reference.reference_key,
        r.event_day == reference.day,
        r.reference_return == reference.reference_return,
        r.token_return == token_return,
        token_return is None ==> r.response_gap is None && r.direction_match is None,
        token_return is Some ==> names(
            r.response_gap,
            psub(pair(token_return.unwrap()), pair(reference.reference_return)),
        ),
        (token_return is Some && sub_is_exact(token_return.unwrap(), reference.reference_return))
            ==> (r.response_gap is Some && r.response_gap.unwrap().units()
            == token_return.unwrap().units() - reference.reference_return.units()),
        token_return is Some ==> r.direction_match == direction_of(
            token_return.unwrap().units(),
            reference.reference_return.units(),
        ),
        ({
            let t = token_return.unwrap().units();
            let f = reference.reference_return.units();
            token_return is Some ==> {
                &&& (t != 0 && f != 0) ==> r.direction_match == Some((t > 0 && f > 0) || (t < 0 && f < 0))
                &&& (t == 0 || f == 0) ==> r.direction_match is None
            }
        }),
        r.source_label == reference.source_label,
        r.source_url == reference.source_url,
        r.reference_cutoff == reference.cutoff,
        r.interpretation_boundary@ == response_gap_note(),
        r.boundary.missing@.len() == 0,
        r.boundary.assumptions@.len() == 0,
{
    let rr = reference.reference_return;
    let (response_gap, direction_match) = match token_return {
        Some(v) => {
            let gap = dec_sub(&v, &rr);
            let zero = Dec::zero();
            let dir = if dec_is_zero(&v) || dec_is_zero(&rr) {
                None
            } else {
                Some((dec_lt(&zero, &v) && dec_lt(&zero, &rr)) || (dec_lt(&v, &zero) && dec_lt(
                    &rr,
                    &zero,
                )))
            };
            (gap, dir)
        },
        None => (None, None),
    };
    ResponseGapSummary {
        asset_key: reference.asset_key,
        reference_key: reference.reference_key,
        event_day: reference.day,
        reference_return: rr,
        token_return,
        response_gap,
        direction_match,
        source_label: reference.source_label,
        source_url: reference.source_url,
        reference_cutoff: reference.cutoff,
        interpretation_boundary: "Response gap is the token's same-date daily return minus a frozen source-reported reference return. It is not a synchronized intraday comparison, beta, tracking-error model, pass-through coefficient, or causal transmission estimate.",
        boundary: EvidenceBoundary::new(),
    }
}

/// Whether a reference row is the one asked for: the asset, the reference
/// key, and a day inside window `w`.
pub open spec fn reference_hit(
    row: ReferenceReturnObservation,
    asset: Seq<char>,
    key: Seq<char>,
    w: EventWindow,
) -> bool {
    &&& row.asset_key.0@ == asset
    &&& row.reference_key@ == key
    &&& window_has(w, row.day.num())
}

/// The indices of the rows among the first `n` that are hits, in order.
pub open spec fn reference_hits(
    refs: Seq<ReferenceReturnObservation>,
    asset: Seq<char>,
    key: Seq<char>,
    w: EventWindow,
    n: int,
) -> Seq<int>
    decreases n,
{
    if n <= 0 {
        Seq::empty()
    } else {
        reference_hits(refs, asset, key, w, n - 1) + if reference_hit(refs[n - 1], asset, key, w) {
            seq![n - 1]
        } else {
            Seq::empty()
        }
    }
}

proof fn lemma_hits_grow(
    refs: Seq<ReferenceReturnObservation>,
    asset: Seq<char>,
    key: Seq<char>,
    w: EventWindow,
    m: int,
    n: int,
)
    requires
        0 <= m <= n,
    ensures
        reference_hits(refs, asset, key, w, m).len() <= reference_hits(refs, asset, key, w, n).len(),
    decreases n - m,
{
    if m < n {
        lemma_hits_grow(refs, asset, key, w, m, n - 1);
    }
}

/// The value of the first daily return on day `d` at or after index `i`.
pub open spec fn return_on(rets: Seq<(int, int, (int, int))>, d: int, i: int) -> Option<(int, int)>
    decreases rets.len() - i,
{
    if i >= rets.len() || i < 0 {
        None
    } else if rets[i].0 == d {
        Some(rets[i].2)
    } else {
        return_on(rets, d, i + 1)
    }
}

/// The assumption recorded for a frozen reference.
pub open spec fn reference_assumption(key: Seq<char>, cutoff: Seq<char>) -> Seq<char> {
    "reference '"@ + key + "' uses "@ + cutoff
        + "; comparison is by observation date, not a synchronized intraday cutoff"@
}

/// The reason recorded when the token has no return on the reference day.
pub open spec fn no_token_return_reason() -> Seq<char> {
    "no adjacent-calendar-day token return is available on the reference day"@
}

/// `sm` is the gap of token return `token` (as a pair) against `reference`.
pub open spec fn gap_fields_of(
    sm: ResponseGapSummary,
    reference: ReferenceReturnObservation,
    token: Option<(int, int)>,
) -> bool {
    &&& sm.asset_key == reference.asset_key
    &&& sm.reference_key == reference.reference_key
    &&& sm.event_day == reference.day
    &&& sm.reference_return == reference.reference_return
    &&& names(sm.token_return, token)
    &&& (token is None ==> sm.response_gap is None && sm.direction_match is None)
    &&& (token is Some ==> names(sm.response_gap, psub(token.unwrap(), pair(reference.reference_return))))
    &&& (token is Some ==> sm.direction_match == direction_of(
        sm.token_return.unwrap().units(),
        reference.reference_return.units(),
    ))
    &&& sm.source_label == reference.source_label
    &&& sm.source_url == reference.source_url
    &&& sm.reference_cutoff == reference.cutoff
    &&& sm.interpretation_boundary@ == response_gap_note()
}

/// The response gap of one asset of a project against one named frozen
/// reference return: the reference is the single row of that reference and
/// asset inside the event window; the token return is the asset's daily
/// return on the reference's day, if there is one. The windows are resolved
/// first, then the reference, then the asset's rows.
pub fn load_response_gap_summary(
    cfg: &ProjectConfig,
    references: &Vec<ReferenceReturnObservation>,
    rows: &Vec<ResponseObservation>,
    asset: &AssetKey,
    reference_key: &String,
    event_window_override: &Option<String>,
) -> (r: Result<ResponseGapSummary, MeasureProjectError>)
    requires
        forall|i: int|
            0 <= i < cfg.windows@.len() ==> (#[trigger] cfg.windows@[i]).start.num()
                <= cfg.windows@[i].end.num(),
    ensures
        ({
            let ws = cfg.windows@;
            let bn = baseline_name(*cfg, None);
            let b = first_named(ws, bn.unwrap(), 0);
            let e = event_index(*cfg, *event_window_override, b);
            let hits = reference_hits(references@, asset.0@, reference_key@, ws[e], references@.len() as int);
            let series = rows@.filter(of_key(asset.0@));
            let sorted = stable_sort(series);
            let windows_ok = bn is Some && b < ws.len() && e < ws.len();
            let found = windows_ok && cfg.inputs.references is Some && hits.len() == 1;
            let has_series = found && cfg.inputs.response is Some && key_declared(cfg.assets@, asset.0@)
                && series.len() > 0;
            &&& bn is None ==> r == Err::<ResponseGapSummary, MeasureProjectError>(
                MeasureProjectError::NoBaselineWindow,
            )
            &&& (bn is Some && b >= ws.len()) ==> (r matches Err(MeasureProjectError::WindowNotFound(m))
                && m@ == bn.unwrap())
            &&& (bn is Some && b < ws.len() && e >= ws.len()) ==> event_window_error(
                r,
                *cfg,
                *event_window_override,
                b,
            )
            &&& (windows_ok && cfg.inputs.references is None) ==> r == Err::<
                ResponseGapSummary,
                MeasureProjectError,
            >(MeasureProjectError::NoReferenceInput)
            &&& (windows_ok && cfg.inputs.references is Some && hits.len() == 0) ==> (r matches Err(
                MeasureProjectError::ReferenceNotFound { reference, asset: a },
            ) && reference@ == reference_key@ && a@ == asset.0@)
            &&& (windows_ok && cfg.inputs.references is Some && hits.len() > 1) ==> (r matches Err(
                MeasureProjectError::AmbiguousReference { reference, asset: a },
            ) && reference@ == reference_key@ && a@ == asset.0@)
            &&& (found && cfg.inputs.response is None) ==> r == Err::<
                ResponseGapSummary,
                MeasureProjectError,
            >(MeasureProjectError::NoResponseInput)
            &&& (found && cfg.inputs.response is Some && !key_declared(cfg.assets@, asset.0@)) ==> (r matches Err(
                MeasureProjectError::UndeclaredAsset { asset: a },
            ) && a@ == asset.0@)
            &&& (found && cfg.inputs.response is Some && key_declared(cfg.assets@, asset.0@) && series.len()
                == 0) ==> (r matches Err(MeasureProjectError::NoObservationsForAsset { asset: a, path })
                && a@ == asset.0@ && path@ == cfg.inputs.response.unwrap()@)
            &&& has_series ==> (r is Ok <==> (series_valid(sorted) && returns_of(sorted) is Some))
            &&& (has_series && r is Err) ==> (r matches Err(MeasureProjectError::Measure(_)))
            &&& (has_series && r is Err) ==> (r matches Err(MeasureProjectError::Measure(m))
                && returns_error_is(m, sorted))
            &&& r matches Ok(sm) ==> {
                let reference = references@[hits[0]];
                &&& has_series
                &&& gap_fields_of(
                    sm,
                    reference,
                    return_on(returns_of(sorted).unwrap(), reference.day.num(), 0),
                )
                &&& sm.boundary.assumptions@.map_values(|t: String| t@) == seq![
                    measure_assumption(),
                    reference_assumption(reference.reference_key@, reference.cutoff@),
                ]
                &&& sm.boundary.missing@.take(cfg.coverage_declared@.len() as int)
                    == cfg.coverage_declared@.map_values(
                    |g: CoverageGap| with_source(g, GapSource::Declared),
                )
                &&& ({
                    let n = cfg.coverage_declared@.len() as int;
                    let slots = gap_slots(*cfg, seq![*asset], seq![ws[e]], seq![series], 1);
                    &&& sm.boundary.missing@.len() == n + slots.len() + if sm.token_return is None {
                        1int
                    } else {
                        0int
                    }
                    &&& gaps_for_slots(
                        sm.boundary.missing@.subrange(n, n + slots.len()),
                        *cfg,
                        seq![*asset],
                        seq![ws[e]],
                        seq![series],
                        slots,
                    )
                })
                &&& sm.token_return is None ==> {
                    let g = sm.boundary.missing@.last();
                    &&& g.kind == MissingKind::Price
                    &&& g.scope@ == asset.0@ + "@"@ + date_text(reference.day.num())
                    &&& g.reason@ == no_token_return_reason()
                    &&& g.source == GapSource::Detected
                }
            }
        }),
{
    let ghost ws = cfg.windows@;
    let b = match resolve_baseline_window(cfg, &None) {
        Ok(k) => k,
        Err(e) => {
            return Err(e);
        },
    };
    let e = match resolve_event_window(cfg, event_window_override, &cfg.windows[b].name) {
        Ok(k) => k,
        Err(err) => {
            return Err(err);
        },
    };
    assert(b as int == first_named(ws, baseline_name(*cfg, None).unwrap(), 0));
    assert(e as int == event_index(*cfg, *event_window_override, b as int));
    let event_window = &cfg.windows[e];
    match reference_rows_input(cfg) {
        Err(err) => {
            return Err(err);
        },
        Ok(_) => {},
    }
    let ghost w = ws[e as int];
    let mut found: Option<usize> = None;
    let mut i: usize = 0;
    while i < references.len()
        invariant
            i <= references@.len(),
            e < ws.len(),
            *event_window == w,
            w == ws[e as int],
            ws == cfg.windows@,
            cfg.inputs.references is Some,
            baseline_name(*cfg, None) is Some,
            b < ws.len(),
            b as int == first_named(ws, baseline_name(*cfg, None).unwrap(), 0),
            e as int == event_index(*cfg, *event_window_override, b as int),
            found is None ==> reference_hits(references@, asset.0@, reference_key@, w, i as int).len() == 0,
            found matches Some(k) ==> k < i && reference_hits(references@, asset.0@, reference_key@, w, i as int)
                == seq![k as int],
        decreases references.len() - i,
    {
        let row = &references[i];
        let hit = row.asset_key.same(asset) && row.reference_key == *reference_key && event_window.contains(
            row.day,
        );
        let ghost before = reference_hits(references@, asset.0@, reference_key@, w, i as int);
        let ghost after = reference_hits(references@, asset.0@, reference_key@, w, i + 1);
        proof {
            assert(hit == reference_hit(references@[i as int], asset.0@, reference_key@, w));
            assert(after == before + if hit { seq![i as int] } else { Seq::<int>::empty() });
        }
        if hit {
            if found.is_some() {
                proof {
                    assert(after.len() == 2);
                    lemma_hits_grow(references@, asset.0@, reference_key@, w, i + 1, references@.len() as int);
                }
                return Err(
                    MeasureProjectError::AmbiguousReference {
                        reference: reference_key.clone(),
                        asset: asset.0.clone(),
                    },
                );
            }
            found = Some(i);
            proof {
                assert(after =~= seq![i as int]);
            }
        } else {
            proof {
                assert(after =~= before);
            }
        }
        i += 1;
    }
    let k = match found {
        Some(k) => k,
        None => {
            return Err(
                MeasureProjectError::ReferenceNotFound {
                    reference: reference_key.clone(),
                    asset: asset.0.clone(),
                },
            );
        },
    };
    let reference = references[k].clone();
    match response_rows_input(cfg) {
        Err(err) => {
            return Err(err);
        },
        Ok(_) => {},
    }
    let series = match require_asset_observations(cfg, rows, asset) {
        Ok(s) => s,
        Err(err) => {
            return Err(err);
        },
    };
    let copy = copy_rows(&series);
    let daily = match daily_returns(copy) {
        Ok(v) => v,
        Err(err) => {
            return Err(MeasureProjectError::Measure(err));
        },
    };
    let ghost sorted = stable_sort(series@);
    proof {
        assert(series_valid(sorted));
        assert(returns_of(sorted) is Some);
    }
    let ghost rets = returns_of(sorted).unwrap();
    let ghost d = reference.day.num();
    assert(daily@.map_values(|x: DailyReturn| return_view(x)) == rets);
    let mut token_return: Option<Dec> = None;
    let mut j: usize = 0;
    while j < daily.len() && token_return.is_none()
        invariant
            j <= daily@.len(),
            daily@.map_values(|x: DailyReturn| return_view(x)) == rets,
            d == reference.day.num(),
            token_return is None ==> return_on(rets, d, 0) == return_on(rets, d, j as int),
            token_return is Some ==> return_on(rets, d, 0) == Some(pair(token_return.unwrap())),
        decreases daily.len() - j,
    {
        proof {
            assert(rets[j as int] == return_view(daily@[j as int]));
            assert(return_on(rets, d, j as int) == if rets[j as int].0 == d {
                Some(rets[j as int].2)
            } else {
                return_on(rets, d, j + 1)
            });
        }
        if daily[j].day.number() == reference.day.number() {
            token_return = Some(daily[j].value);
        }
        j += 1;
    }
    let event_day = reference.day;
    let mut summary = account_response_gap(reference, token_return);
    let mut assets: Vec<AssetKey> = Vec::new();
    assets.push(asset.clone());
    let mut windows: Vec<EventWindow> = Vec::new();
    windows.push(event_window.clone());
    let mut series_by_asset: Vec<Vec<ResponseObservation>> = Vec::new();
    series_by_asset.push(series);
    summary.boundary = build_measure_boundary(cfg, &assets, &windows, &series_by_asset, false, 0);
    proof {
        let sv = series_by_asset@.map_values(|v: Vec<ResponseObservation>| v@);
        let ew = cfg.windows@[e as int];
        let s0 = rows@.filter(of_key(asset.0@));
        assert(sv =~= seq![s0]);
        assert(assets@ =~= seq![*asset]);
        let w0 = windows@[0];
        assert(windows@.len() == 1);
        assert(w0.start == ew.start && w0.end == ew.end && w0.name == ew.name);
        assert(missing_in(*cfg, *asset, w0, s0) == missing_in(*cfg, *asset, ew, s0));
        assert(assets@[0] == *asset && sv[0] == s0);
        assert(gap_slots_of(*cfg, assets@, windows@, sv, 0, 0) =~= Seq::<(int, int)>::empty());
        assert(gap_slots_of(*cfg, seq![*asset], seq![ew], seq![s0], 0, 0) =~= Seq::<(int, int)>::empty());
        assert(gap_slots_of(*cfg, assets@, windows@, sv, 0, 1) == gap_slots_of(*cfg, seq![*asset], seq![ew], seq![s0], 0, 1));
        assert(gap_slots(*cfg, assets@, windows@, sv, 0) =~= Seq::<(int, int)>::empty());
        assert(gap_slots(*cfg, seq![*asset], seq![ew], seq![s0], 0) =~= Seq::<(int, int)>::empty());
        assert(gap_slots(*cfg, assets@, windows@, sv, 1) =~= gap_slots_of(*cfg, assets@, windows@, sv, 0, 1));
        assert(gap_slots(*cfg, seq![*asset], seq![ew], seq![s0], 1) =~= gap_slots_of(*cfg, seq![*asset], seq![ew], seq![s0], 0, 1));
        assert(gap_slots(*cfg, assets@, windows@, sv, 1) == gap_slots(*cfg, seq![*asset], seq![ew], seq![s0], 1));
        let slots = gap_slots(*cfg, assets@, windows@, sv, 1);
        let n = cfg.coverage_declared@.len() as int;
        let gs = summary.boundary.missing@.subrange(n, n + slots.len());
        assert forall|t: int| 0 <= t < slots.len() implies session_gap(
            #[trigger] gs[t],
            *cfg,
            seq![*asset][slots[t].0],
            seq![ew][slots[t].1],
            seq![s0][slots[t].0],
        ) by {
            assert(slots[t] == (0int, 0int));
            assert(session_gap(gs[t], *cfg, assets@[0], windows@[0], sv[0]));
            assert(session_gap(gs[t], *cfg, *asset, w0, s0) == session_gap(gs[t], *cfg, *asset, ew, s0));
        }
    }
    let ghost before = summary.boundary.assumptions@;
    summary.boundary.record_assumption(
        String::from_str("reference '").concat(summary.reference_key.as_str()).concat("' uses ").concat(
            summary.reference_cutoff.as_str(),
        ).concat("; comparison is by observation date, not a synchronized intraday cutoff"),
    );
    proof {
        assert(summary.boundary.assumptions@.map_values(|t: String| t@) =~= before.map_values(
            |t: String| t@,
        ).push(summary.boundary.assumptions@.last()@));
    }
    let ghost before_gap = summary.boundary.missing@;
    if summary.token_return.is_none() {
        summary.boundary.push_detected(
            CoverageGap::new(
                MissingKind::Price,
                asset.0.clone().concat("@").concat(event_day.to_text().as_str()),
                String::from_str(
                    "no adjacent-calendar-day token return is available on the reference day",
                ),
            ),
        );
    }
    proof {
        let n = cfg.coverage_declared@.len() as int;
        let slots = gap_slots(*cfg, seq![*asset], seq![cfg.windows@[e as int]], seq![rows@.filter(of_key(asset.0@))], 1);
        assert(summary.boundary.missing@.subrange(n, n + slots.len()) =~= before_gap.subrange(n, n + slots.len()));
        assert(summary.boundary.missing@.take(n) =~= before_gap.take(n));
    }
    Ok(summary)
}

} // verus!
