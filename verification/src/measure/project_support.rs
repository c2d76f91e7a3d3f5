//! Project-aware helpers for the measure tools: the inputs they read, the
//! windows they use, the asset's rows, and the evidence boundary of a
//! measurement. The measure tools are single-asset (or asset-pair),
//! single-window-pair, on-demand queries; they are a surface separate from
//! the declared market-response section.
use crate::coverage::{CoverageGap, EvidenceBoundary, MissingKind, with_source, GapSource};
use crate::day::Day;
use crate::event::{
    calendar_label, missing_days, session_count, window_for_response, EventWindow, SessionCalendar,
};
use crate::identity::AssetKey;
use crate::measure::daily::MeasureError;
use crate::measure::stats::ADEQUATE_BASELINE_OBSERVATIONS;
use crate::project::validate::{find_key, key_declared};
use crate::project::ProjectConfig;
use crate::report::market::{
    other_kind, calendar_of, find_window, first_named, of_key, rows_of_key, session_calendar_for,
};
use crate::response::ResponseObservation;
use crate::text::{count_text, decimal_digits};
use vstd::prelude::*;
use vstd::string::*;

verus! {

#[derive(Debug, PartialEq, Eq)]
pub enum MeasureProjectError {
    /// An input file could not be read or parsed.
    Ingest(String),
    NoResponseInput,
    NoReferenceInput,
    NoBaselineWindow,
    WindowNotFound(String),
    NoDefaultEventWindow(String),
    UndeclaredAsset { asset: String },
    NoObservationsForAsset { asset: String, path: String },
    ReferenceNotFound { reference: String, asset: String },
    AmbiguousReference { reference: String, asset: String },
    Measure(MeasureError),
}

/// The response input the measure tools read.
pub fn response_rows_input(cfg: &ProjectConfig) -> (r: Result<String, MeasureProjectError>)
    ensures
        cfg.inputs.response is None ==> r == Err::<String, MeasureProjectError>(
            MeasureProjectError::NoResponseInput,
        ),
        cfg.inputs.response matches Some(p) ==> (r matches Ok(q) && q@ == p@),
{
    match &cfg.inputs.response {
        Some(p) => Ok(p.clone()),
        None => Err(MeasureProjectError::NoResponseInput),
    }
}

/// The reference-return input the pass-through measure reads.
pub fn reference_rows_input(cfg: &ProjectConfig) -> (r: Result<String, MeasureProjectError>)
    ensures
        cfg.inputs.references is None ==> r == Err::<String, MeasureProjectError>(
            MeasureProjectError::NoReferenceInput,
        ),
        cfg.inputs.references matches Some(p) ==> (r matches Ok(q) && q@ == p@),
{
    match &cfg.inputs.references {
        Some(p) => Ok(p.clone()),
        None => Err(MeasureProjectError::NoReferenceInput),
    }
}

/// The name of the baseline window: the override, else `[response].baseline_window`.
pub open spec fn baseline_name(cfg: ProjectConfig, override_name: Option<String>) -> Option<Seq<char>> {
    match override_name {
        Some(n) => Some(n@),
        None => match cfg.response {
            Some(rc) => Some(rc.baseline_window@),
            None => None,
        },
    }
}

/// The baseline window's index among the project's windows.
pub fn resolve_baseline_window(cfg: &ProjectConfig, override_name: &Option<String>) -> (r: Result<
    usize,
    MeasureProjectError,
>)
    ensures
        r matches Ok(k) ==> k < cfg.windows@.len(),
        baseline_name(*cfg, *override_name) is None ==> r == Err::<usize, MeasureProjectError>(
            MeasureProjectError::NoBaselineWindow,
        ),
        baseline_name(*cfg, *override_name) matches Some(n) ==> {
            let k = first_named(cfg.windows@, n, 0);
            &&& k < cfg.windows@.len() ==> (r matches Ok(j) && j == k)
            &&& k >= cfg.windows@.len() ==> (r matches Err(MeasureProjectError::WindowNotFound(m))
                && m@ == n)
        },
{
    let name = match override_name {
        Some(n) => n.clone(),
        None => match &cfg.response {
            Some(rc) => rc.baseline_window.clone(),
            None => {
                return Err(MeasureProjectError::NoBaselineWindow);
            },
        },
    };
    let k = find_window(&cfg.windows, &name);
    if k < cfg.windows.len() {
        Ok(k)
    } else {
        Err(MeasureProjectError::WindowNotFound(name))
    }
}

/// Index of the first response window at or after `i` not named `skip`;
/// `ws.len()` if none.
pub open spec fn first_event_window(ws: Seq<EventWindow>, skip: Seq<char>, i: int) -> int
    decreases ws.len() - i,
{
    if i >= ws.len() || i < 0 {
        ws.len() as int
    } else if window_for_response(ws[i]) && ws[i].name@ != skip {
        i
    } else {
        first_event_window(ws, skip, i + 1)
    }
}

/// The index of the event window a measurement uses: the override's, else the
/// first declared response window not named like baseline window `b`.
pub open spec fn event_index(cfg: ProjectConfig, override_name: Option<String>, b: int) -> int {
    match override_name {
        Some(n) => first_named(cfg.windows@, n@, 0),
        None => first_event_window(cfg.windows@, cfg.windows@[b].name@, 0),
    }
}

/// What resolving the event window gives when it fails: the override's name
/// when it names no window, else the baseline window's name.
pub open spec fn event_window_error<T>(
    r: Result<T, MeasureProjectError>,
    cfg: ProjectConfig,
    override_name: Option<String>,
    b: int,
) -> bool {
    match override_name {
        Some(n) => r matches Err(MeasureProjectError::WindowNotFound(m)) && m@ == n@,
        None => r matches Err(MeasureProjectError::NoDefaultEventWindow(m)) && m@ == cfg.windows@[b].name@,
    }
}

/// The event window's index: the override, else the first declared response
/// window other than the baseline window.
pub fn resolve_event_window(
    cfg: &ProjectConfig,
    override_name: &Option<String>,
    baseline: &String,
) -> (r: Result<usize, MeasureProjectError>)
    ensures
        r matches Ok(k) ==> k < cfg.windows@.len(),
        override_name matches Some(n) ==> {
            let k = first_named(cfg.windows@, n@, 0);
            &&& k < cfg.windows@.len() ==> (r matches Ok(j) && j == k)
            &&& k >= cfg.windows@.len() ==> (r matches Err(MeasureProjectError::WindowNotFound(m))
                && m@ == n@)
        },
        override_name is None ==> {
            let k = first_event_window(cfg.windows@, baseline@, 0);
            &&& k < cfg.windows@.len() ==> (r matches Ok(j) && j == k)
            &&& k >= cfg.windows@.len() ==> (r matches Err(MeasureProjectError::NoDefaultEventWindow(m))
                && m@ == baseline@)
        },
{
    match override_name {
        Some(n) => {
            let k = find_window(&cfg.windows, n);
            if k < cfg.windows.len() {
                Ok(k)
            } else {
                Err(MeasureProjectError::WindowNotFound(n.clone()))
            }
        },
        None => {
            let mut i: usize = 0;
            while i < cfg.windows.len()
                invariant
                    i <= cfg.windows@.len(),
                    override_name is None,
                    first_event_window(cfg.windows@, baseline@, 0) == first_event_window(
                        cfg.windows@,
                        baseline@,
                        i as int,
                    ),
                decreases cfg.windows.len() - i,
            {
                if cfg.windows[i].applies_to_response() && cfg.windows[i].name != *baseline {
                    return Ok(i);
                }
                i += 1;
            }
            Err(MeasureProjectError::NoDefaultEventWindow(baseline.clone()))
        },
    }
}

/// The asset's rows, when the asset is declared and has rows.
pub fn require_asset_observations(
    cfg: &ProjectConfig,
    rows: &Vec<ResponseObservation>,
    asset: &AssetKey,
) -> (r: Result<Vec<ResponseObservation>, MeasureProjectError>)
    ensures
        !key_declared(cfg.assets@, asset.0@) ==> (r matches Err(
            MeasureProjectError::UndeclaredAsset { asset: a },
        ) && a@ == asset.0@),
        key_declared(cfg.assets@, asset.0@) && rows@.filter(of_key(asset.0@)).len() == 0 ==> (r matches Err(
            MeasureProjectError::NoObservationsForAsset { asset: a, path },
        ) && a@ == asset.0@ && path@ == match cfg.inputs.response {
            Some(p) => p@,
            None => "<none>"@,
        }),
        key_declared(cfg.assets@, asset.0@) && rows@.filter(of_key(asset.0@)).len() > 0 ==> (r matches Ok(
            v,
        ) && v@ == rows@.filter(of_key(asset.0@))),
{
    if !find_key(&cfg.assets, asset) {
        return Err(MeasureProjectError::UndeclaredAsset { asset: asset.0.clone() });
    }
    let series = rows_of_key(rows, &asset.0);
    if series.len() == 0 {
        let path = match &cfg.inputs.response {
            Some(p) => p.clone(),
            None => String::from_str("<none>"),
        };
        return Err(MeasureProjectError::NoObservationsForAsset { asset: asset.0.clone(), path });
    }
    Ok(series)
}

/// `calendar` for continuous series, `weekday` for exchange sessions.
pub fn session_label(calendar: SessionCalendar) -> (r: &'static str)
    ensures
        r@ == calendar_label(calendar),
{
    calendar.coverage_label()
}

/// The assumption every measurement records.
pub open spec fn measure_assumption() -> Seq<char> {
    "measure tools are descriptive accounting only; they do not infer causality or migration"@
}

/// The reason recorded when a window misses sessions of an asset.
pub open spec fn missing_sessions_reason(missing: nat, expected: nat, calendar: SessionCalendar, w: EventWindow) -> Seq<char> {
    decimal_digits(missing) + " of "@ + decimal_digits(expected) + " "@ + calendar_label(calendar)
        + " sessions missing in window '"@ + w.name@ + "'"@
}

/// The reason recorded for a baseline below the adequacy floor.
pub open spec fn low_baseline_reason(n: nat) -> Seq<char> {
    "baseline_n="@ + decimal_digits(n) + " is below adequacy floor "@ + decimal_digits(
        ADEQUATE_BASELINE_OBSERVATIONS as nat,
    ) + "; z-score is computable but not a trustworthy empirical reference"@
}

/// Asset keys joined by `+`.
pub open spec fn joined_keys(keys: Seq<AssetKey>) -> Seq<char>
    decreases keys.len(),
{
    if keys.len() == 0 {
        Seq::empty()
    } else if keys.len() == 1 {
        keys[0].0@
    } else {
        joined_keys(keys.drop_last()) + "+"@ + keys.last().0@
    }
}

fn days_of(series: &Vec<ResponseObservation>) -> (r: Vec<Day>)
    ensures
        r@ == series@.map_values(|o: ResponseObservation| o.day),
{
    let mut out: Vec<Day> = Vec::new();
    let mut i: usize = 0;
    while i < series.len()
        invariant
            i <= series@.len(),
            out@ == series@.take(i as int).map_values(|o: ResponseObservation| o.day),
        decreases series.len() - i,
    {
        out.push(series[i].day);
        proof {
            assert(out@ =~= series@.take(i + 1).map_values(|o: ResponseObservation| o.day));
        }
        i += 1;
    }
    proof {
        assert(series@.take(series@.len() as int) =~= series@);
    }
    out
}

/// The days of an asset's rows.
pub open spec fn row_days(rows: Seq<ResponseObservation>) -> Seq<Day> {
    rows.map_values(|o: ResponseObservation| o.day)
}

/// The sessions of window `w` that asset `key` (rows `rows`) has no row on,
/// under the asset's calendar.
pub open spec fn missing_in(cfg: ProjectConfig, key: AssetKey, w: EventWindow, rows: Seq<ResponseObservation>) -> Seq<int> {
    missing_days(calendar_of(cfg.assets@, key.0@), w.start.num(), w.end.num(), row_days(rows))
}

/// The pairs `(a, w)` among windows `0..nw` of asset `a` whose window misses sessions.
pub open spec fn gap_slots_of(
    cfg: ProjectConfig,
    assets: Seq<AssetKey>,
    windows: Seq<EventWindow>,
    series: Seq<Seq<ResponseObservation>>,
    a: int,
    nw: int,
) -> Seq<(int, int)>
    decreases nw,
{
    if nw <= 0 {
        Seq::empty()
    } else {
        gap_slots_of(cfg, assets, windows, series, a, nw - 1) + if missing_in(
            cfg,
            assets[a],
            windows[nw - 1],
            series[a],
        ).len() > 0 {
            seq![(a, nw - 1)]
        } else {
            Seq::empty()
        }
    }
}

/// The pairs `(a, w)` of the first `na` assets, asset by asset and window by
/// window, whose window misses sessions.
pub open spec fn gap_slots(
    cfg: ProjectConfig,
    assets: Seq<AssetKey>,
    windows: Seq<EventWindow>,
    series: Seq<Seq<ResponseObservation>>,
    na: int,
) -> Seq<(int, int)>
    decreases na,
{
    if na <= 0 {
        Seq::empty()
    } else {
        gap_slots(cfg, assets, windows, series, na - 1) + gap_slots_of(
            cfg,
            assets,
            windows,
            series,
            na - 1,
            windows.len() as int,
        )
    }
}

/// `g` is the gap recorded for asset `key` (rows `rows`) missing sessions of window `w`.
pub open spec fn session_gap(g: CoverageGap, cfg: ProjectConfig, key: AssetKey, w: EventWindow, rows: Seq<ResponseObservation>) -> bool {
    let cal = calendar_of(cfg.assets@, key.0@);
    &&& g.kind matches MissingKind::Other(k) && k@ == "response_coverage"@
    &&& g.scope@ == key.0@ + "@"@ + w.name@
    &&& g.reason@ == missing_sessions_reason(
        missing_in(cfg, key, w, rows).len(),
        session_count(cal, w.start.num(), w.end.num()),
        cal,
        w,
    )
    &&& g.source == GapSource::Detected
}

/// The gaps `gs` are those of the slots, in order.
pub open spec fn gaps_for_slots(
    gs: Seq<CoverageGap>,
    cfg: ProjectConfig,
    assets: Seq<AssetKey>,
    windows: Seq<EventWindow>,
    series: Seq<Seq<ResponseObservation>>,
    slots: Seq<(int, int)>,
) -> bool {
    &&& gs.len() == slots.len()
    &&& forall|t: int|
        0 <= t < slots.len() ==> session_gap(
            #[trigger] gs[t],
            cfg,
            assets[slots[t].0],
            windows[slots[t].1],
            series[slots[t].0],
        )
}

/// Every gap slot names one of the first `na` assets and one of the windows.
pub proof fn lemma_gap_slots_in_range(
    cfg: ProjectConfig,
    assets: Seq<AssetKey>,
    windows: Seq<EventWindow>,
    series: Seq<Seq<ResponseObservation>>,
    na: int,
)
    ensures
        forall|t: int|
            0 <= t < gap_slots(cfg, assets, windows, series, na).len() ==> {
                let p = #[trigger] gap_slots(cfg, assets, windows, series, na)[t];
                0 <= p.0 < na && 0 <= p.1 < windows.len()
            },
    decreases na,
{
    if na > 0 {
        lemma_gap_slots_in_range(cfg, assets, windows, series, na - 1);
        lemma_gap_slots_of_in_range(cfg, assets, windows, series, na - 1, windows.len() as int);
        let prev = gap_slots(cfg, assets, windows, series, na - 1);
        let last = gap_slots_of(cfg, assets, windows, series, na - 1, windows.len() as int);
        let cur = gap_slots(cfg, assets, windows, series, na);
        assert forall|t: int| 0 <= t < cur.len() implies {
            let p = #[trigger] cur[t];
            0 <= p.0 < na && 0 <= p.1 < windows.len()
        } by {
            if t < prev.len() {
                assert(cur[t] == prev[t]);
            } else {
                assert(cur[t] == last[t - prev.len()]);
            }
        }
    }
}

proof fn lemma_gap_slots_of_in_range(
    cfg: ProjectConfig,
    assets: Seq<AssetKey>,
    windows: Seq<EventWindow>,
    series: Seq<Seq<ResponseObservation>>,
    a: int,
    nw: int,
)
    requires
        nw <= windows.len(),
    ensures
        forall|t: int|
            0 <= t < gap_slots_of(cfg, assets, windows, series, a, nw).len() ==> {
                let p = #[trigger] gap_slots_of(cfg, assets, windows, series, a, nw)[t];
                p.0 == a && 0 <= p.1 < nw
            },
    decreases nw,
{
    if nw > 0 {
        lemma_gap_slots_of_in_range(cfg, assets, windows, series, a, nw - 1);
        let prev = gap_slots_of(cfg, assets, windows, series, a, nw - 1);
        let cur = gap_slots_of(cfg, assets, windows, series, a, nw);
        assert forall|t: int| 0 <= t < cur.len() implies {
            let p = #[trigger] cur[t];
            p.0 == a && 0 <= p.1 < nw
        } by {
            if t < prev.len() {
                assert(cur[t] == prev[t]);
            } else {
                assert(cur[t] == (a, nw - 1));
            }
        }
    }
}

/// Windows with the same names and days give the same gap slots and the same gaps.
pub proof fn lemma_gap_slots_same_spans(
    cfg: ProjectConfig,
    assets: Seq<AssetKey>,
    w1: Seq<EventWindow>,
    w2: Seq<EventWindow>,
    series: Seq<Seq<ResponseObservation>>,
    na: int,
)
    requires
        w1.len() == w2.len(),
        forall|j: int|
            0 <= j < w1.len() ==> (#[trigger] w1[j]).start == w2[j].start && w1[j].end == w2[j].end
                && w1[j].name == w2[j].name,
    ensures
        gap_slots(cfg, assets, w1, series, na) == gap_slots(cfg, assets, w2, series, na),
        forall|g: CoverageGap, i: int, j: int|
            0 <= j < w1.len() ==> #[trigger] session_gap(g, cfg, assets[i], w1[j], series[i])
                == session_gap(g, cfg, assets[i], w2[j], series[i]),
    decreases na,
{
    if na > 0 {
        lemma_gap_slots_same_spans(cfg, assets, w1, w2, series, na - 1);
        lemma_gap_slots_of_same_spans(cfg, assets, w1, w2, series, na - 1, w1.len() as int);
    }
}

proof fn lemma_gap_slots_of_same_spans(
    cfg: ProjectConfig,
    assets: Seq<AssetKey>,
    w1: Seq<EventWindow>,
    w2: Seq<EventWindow>,
    series: Seq<Seq<ResponseObservation>>,
    a: int,
    nw: int,
)
    requires
        nw <= w1.len(),
        w1.len() == w2.len(),
        forall|j: int|
            0 <= j < w1.len() ==> (#[trigger] w1[j]).start == w2[j].start && w1[j].end == w2[j].end
                && w1[j].name == w2[j].name,
    ensures
        gap_slots_of(cfg, assets, w1, series, a, nw) == gap_slots_of(cfg, assets, w2, series, a, nw),
    decreases nw,
{
    if nw > 0 {
        lemma_gap_slots_of_same_spans(cfg, assets, w1, w2, series, a, nw - 1);
        assert(w1[nw - 1].start == w2[nw - 1].start);
    }
}

/// The evidence boundary of a measurement: the declared caveats, the measure
/// assumption, a gap for each asset and window that misses sessions under
/// the asset's calendar (asset by asset, window by window), and a gap when
/// the baseline is below the adequacy floor. `series[i]` holds the rows of
/// `assets[i]`.
pub fn build_measure_boundary(
    cfg: &ProjectConfig,
    assets: &Vec<AssetKey>,
    windows: &Vec<EventWindow>,
    series: &Vec<Vec<ResponseObservation>>,
    low_baseline: bool,
    baseline_n: usize,
) -> (r: EvidenceBoundary)
    requires
        series@.len() == assets@.len(),
        forall|w: int| 0 <= w < windows@.len() ==> (#[trigger] windows@[w]).start.num() <= windows@[w].end.num(),
    ensures
        r.assumptions@.map_values(|s: String| s@) == seq![measure_assumption()],
        ({
            let n = cfg.coverage_declared@.len() as int;
            let sv = series@.map_values(|v: Vec<ResponseObservation>| v@);
            let slots = gap_slots(*cfg, assets@, windows@, sv, assets@.len() as int);
            &&& r.missing@.len() == n + slots.len() + if low_baseline { 1int } else { 0int }
            &&& r.missing@.take(n) == cfg.coverage_declared@.map_values(
                |g: CoverageGap| with_source(g, GapSource::Declared),
            )
            &&& gaps_for_slots(r.missing@.subrange(n, n + slots.len()), *cfg, assets@, windows@, sv, slots)
        }),
        r.missing@.len() >= cfg.coverage_declared@.len(),
        low_baseline ==> {
            let g = r.missing@.last();
            &&& g.kind matches MissingKind::Other(k) && k@ == "low_baseline"@
            &&& g.scope@ == joined_keys(assets@)
            &&& g.reason@ == low_baseline_reason(baseline_n as nat)
            &&& g.source == GapSource::Detected
        },
        forall|j: int|
            cfg.coverage_declared@.len() <= j < r.missing@.len() - (if low_baseline { 1int } else { 0int })
                ==> other_kind(#[trigger] r.missing@[j], "response_coverage"@),
{
    let mut boundary = EvidenceBoundary::new();
    boundary.merge_declared(crate::coverage::copy_gaps(&cfg.coverage_declared));
    boundary.record_assumption(
        String::from_str(
            "measure tools are descriptive accounting only; they do not infer causality or migration",
        ),
    );
    let ghost declared_len = boundary.missing@.len() as int;
    let ghost declared = boundary.missing@;
    let ghost sv = series@.map_values(|v: Vec<ResponseObservation>| v@);
    let mut a: usize = 0;
    while a < assets.len()
        invariant
            a <= assets@.len(),
            series@.len() == assets@.len(),
            sv == series@.map_values(|v: Vec<ResponseObservation>| v@),
            forall|w: int| 0 <= w < windows@.len() ==> (#[trigger] windows@[w]).start.num() <= windows@[w].end.num(),
            declared_len == cfg.coverage_declared@.len(),
            declared == cfg.coverage_declared@.map_values(
                |g: CoverageGap| with_source(g, GapSource::Declared),
            ),
            boundary.missing@.len() == declared_len + gap_slots(*cfg, assets@, windows@, sv, a as int).len(),
            boundary.missing@.take(declared_len) == declared,
            gaps_for_slots(
                boundary.missing@.subrange(declared_len, boundary.missing@.len() as int),
                *cfg,
                assets@,
                windows@,
                sv,
                gap_slots(*cfg, assets@, windows@, sv, a as int),
            ),
            boundary.assumptions@.map_values(|s: String| s@) == seq![measure_assumption()],
        decreases assets.len() - a,
    {
        let asset = &assets[a];
        let calendar = session_calendar_for(&cfg.assets, &asset.0);
        let observed = days_of(&series[a]);
        let ghost done = gap_slots(*cfg, assets@, windows@, sv, a as int);
        let mut w: usize = 0;
        while w < windows.len()
            invariant
                a < assets@.len(),
                w <= windows@.len(),
                series@.len() == assets@.len(),
                *asset == assets@[a as int],
                sv == series@.map_values(|v: Vec<ResponseObservation>| v@),
                calendar == calendar_of(cfg.assets@, asset.0@),
                observed@ == row_days(series@[a as int]@),
                forall|v: int| 0 <= v < windows@.len() ==> (#[trigger] windows@[v]).start.num() <= windows@[v].end.num(),
                declared_len == cfg.coverage_declared@.len(),
                done == gap_slots(*cfg, assets@, windows@, sv, a as int),
                boundary.missing@.len() == declared_len + done.len() + gap_slots_of(
                    *cfg,
                    assets@,
                    windows@,
                    sv,
                    a as int,
                    w as int,
                ).len(),
                boundary.missing@.take(declared_len) == declared,
                gaps_for_slots(
                    boundary.missing@.subrange(declared_len, boundary.missing@.len() as int),
                    *cfg,
                    assets@,
                    windows@,
                    sv,
                    done + gap_slots_of(*cfg, assets@, windows@, sv, a as int, w as int),
                ),
                boundary.assumptions@.map_values(|s: String| s@) == seq![measure_assumption()],
            decreases windows.len() - w,
        {
            let window = &windows[w];
            let expected = window.expected_session_count(calendar);
            let missing = window.missing_sessions(calendar, &observed);
            let ghost before = boundary.missing@;
            let ghost slots_before = done + gap_slots_of(*cfg, assets@, windows@, sv, a as int, w as int);
            proof {
                assert(missing@.len() == missing_in(*cfg, *asset, *window, sv[a as int]).len());
            }
            if missing.len() > 0 {
                let reason = count_text(missing.len()).concat(" of ").concat(count_text(expected).as_str()).concat(
                    " ",
                ).concat(session_label(calendar)).concat(" sessions missing in window '").concat(
                    window.name.as_str(),
                ).concat("'");
                let scope = asset.0.clone().concat("@").concat(window.name.as_str());
                boundary.push_detected(
                    CoverageGap::new(MissingKind::Other(String::from_str("response_coverage")), scope, reason),
                );
                proof {
                    let slots_after = done + gap_slots_of(*cfg, assets@, windows@, sv, a as int, w + 1);
                    assert(slots_after =~= slots_before.push((a as int, w as int)));
                    let gs = boundary.missing@.subrange(declared_len, boundary.missing@.len() as int);
                    let gb = before.subrange(declared_len, before.len() as int);
                    assert(gs =~= gb.push(boundary.missing@.last()));
                    assert(boundary.missing@.take(declared_len) =~= before.take(declared_len));
                    assert forall|t: int| 0 <= t < slots_after.len() implies session_gap(
                        #[trigger] gs[t],
                        *cfg,
                        assets@[slots_after[t].0],
                        windows@[slots_after[t].1],
                        sv[slots_after[t].0],
                    ) by {
                        if t < slots_before.len() {
                            assert(gs[t] == gb[t]);
                            assert(slots_after[t] == slots_before[t]);
                        }
                    }
                }
            } else {
                proof {
                    let slots_after = done + gap_slots_of(*cfg, assets@, windows@, sv, a as int, w + 1);
                    assert(slots_after =~= slots_before);
                }
            }
            w += 1;
        }
        proof {
            assert(done + gap_slots_of(*cfg, assets@, windows@, sv, a as int, windows@.len() as int)
                =~= gap_slots(*cfg, assets@, windows@, sv, a + 1));
        }
        a += 1;
    }
    if low_baseline {
        let mut scope = String::new();
        let mut k: usize = 0;
        while k < assets.len()
            invariant
                k <= assets@.len(),
                scope@ == joined_keys(assets@.take(k as int)),
            decreases assets.len() - k,
        {
            proof {
                assert(assets@.take(k + 1).drop_last() =~= assets@.take(k as int));
            }
            if k == 0 {
                scope = assets[k].0.clone();
            } else {
                scope = scope.concat("+").concat(assets[k].0.as_str());
            }
            k += 1;
        }
        proof {
            assert(assets@.take(assets@.len() as int) =~= assets@);
        }
        let ghost before = boundary.missing@;
        boundary.push_detected(
            CoverageGap::new(
                MissingKind::Other(String::from_str("low_baseline")),
                scope,
                String::from_str("baseline_n=").concat(count_text(baseline_n).as_str()).concat(
                    " is below adequacy floor ",
                ).concat(count_text(ADEQUATE_BASELINE_OBSERVATIONS).as_str()).concat(
                    "; z-score is computable but not a trustworthy empirical reference",
                ),
            ),
        );
        proof {
            assert(boundary.missing@.take(declared_len) =~= before.take(declared_len));
            assert(boundary.missing@.subrange(declared_len, before.len() as int) =~= before.subrange(
                declared_len,
                before.len() as int,
            ));
        }
    }
    proof {
        let slots = gap_slots(*cfg, assets@, windows@, sv, assets@.len() as int);
        let n = declared_len;
        assert forall|j: int|
            n <= j < boundary.missing@.len() - (if low_baseline { 1int } else { 0int }) implies other_kind(
            #[trigger] boundary.missing@[j],
            "response_coverage"@,
        ) by {
            let gs = boundary.missing@.subrange(n, n + slots.len());
            assert(boundary.missing@[j] == gs[j - n]);
        }
    }
    boundary
}

} // verus!
