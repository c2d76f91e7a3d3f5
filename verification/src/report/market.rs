//! The market-response section: per declared asset and response window,
//! the market-response summary of the asset's in-window rows, with the
//! coverage gaps that the rows leave.
use crate::coverage::{CoverageGap, EvidenceBoundary, GapSource, MissingKind, with_source};
use crate::day::Day;
use crate::event::{session_count, window_for_response, window_has, EventWindow, SessionCalendar};
use crate::evidence::EvidenceSection;
use crate::flow::inclusive_day_count;
use crate::identity::{AssetKey, CanonicalAsset};
use crate::order::{insert_sorted, strictly_sorted};
use crate::project::validate::{key_declared, window_named_before};
use crate::project::ProjectConfig;
use crate::report::{section_data, AnalyzeError};
use crate::response::{
    account_market_response, response_boundary_note, response_error_is, response_fits,
    response_series_ok, response_summary_of, ResponseObservation, ResponseSeriesSummary,
};
use crate::sort::stable_sort;
use crate::text::{count_text, decimal_digits};
use vstd::prelude::*;
use vstd::string::*;

verus! {

broadcast use vstd::seq_lib::group_seq_properties;

/// Whether the project asks for the market-response section and says how
/// to read it: a response input and a `[response]` table.
pub open spec fn response_requested(cfg: ProjectConfig) -> bool {
    cfg.inputs.response is Some && cfg.response is Some
}

/// The response input to read, when the section is requested.
pub fn response_input(cfg: &ProjectConfig) -> (r: Option<String>)
    ensures
        response_requested(*cfg) ==> r == cfg.inputs.response,
        !response_requested(*cfg) ==> r is None,
{
    match (&cfg.inputs.response, &cfg.response) {
        (Some(rel), Some(_)) => Some(rel.clone()),
        _ => None,
    }
}

/// Rows of the asset `key`.
pub open spec fn of_key(key: Seq<char>) -> spec_fn(ResponseObservation) -> bool {
    |o: ResponseObservation| o.asset_key.0@ == key
}

/// Rows on a day of window `w`.
pub open spec fn in_window(w: EventWindow) -> spec_fn(ResponseObservation) -> bool {
    |o: ResponseObservation| window_has(w, o.day.num())
}

/// Rows whose asset is declared.
pub open spec fn declared_row(assets: Seq<CanonicalAsset>) -> spec_fn(ResponseObservation) -> bool {
    |o: ResponseObservation| key_declared(assets, o.asset_key.0@)
}

pub fn rows_of_key(rows: &Vec<ResponseObservation>, key: &String) -> (r: Vec<ResponseObservation>)
    ensures
        r@ == rows@.filter(of_key(key@)),
{
    let mut out: Vec<ResponseObservation> = Vec::new();
    let mut i: usize = 0;
    while i < rows.len()
        invariant
            i <= rows@.len(),
            out@ == rows@.take(i as int).filter(of_key(key@)),
        decreases rows.len() - i,
    {
        proof {
            assert(rows@.take(i + 1) == rows@.take(i as int).push(rows@[i as int]));
            rows@.take(i as int).lemma_filter_push(rows@[i as int], of_key(key@));
        }
        if rows[i].asset_key.0 == *key {
            out.push(rows[i].clone());
        }
        i += 1;
    }
    proof {
        assert(rows@.take(rows@.len() as int) == rows@);
    }
    out
}

/// A copy of a list of rows.
pub fn copy_rows(rows: &Vec<ResponseObservation>) -> (r: Vec<ResponseObservation>)
    ensures
        r@ == rows@,
{
    let mut out: Vec<ResponseObservation> = Vec::new();
    let mut i: usize = 0;
    while i < rows.len()
        invariant
            i <= rows@.len(),
            out@ == rows@.take(i as int),
        decreases rows.len() - i,
    {
        out.push(rows[i].clone());
        proof {
            assert(out@ =~= rows@.take(i + 1));
        }
        i += 1;
    }
    proof {
        assert(out@ =~= rows@);
    }
    out
}

pub fn rows_in_window(rows: &Vec<ResponseObservation>, w: &EventWindow) -> (r: Vec<
    ResponseObservation,
>)
    ensures
        r@ == rows@.filter(in_window(*w)),
{
    let mut out: Vec<ResponseObservation> = Vec::new();
    let mut i: usize = 0;
    while i < rows.len()
        invariant
            i <= rows@.len(),
            out@ == rows@.take(i as int).filter(in_window(*w)),
        decreases rows.len() - i,
    {
        proof {
            assert(rows@.take(i + 1) == rows@.take(i as int).push(rows@[i as int]));
            rows@.take(i as int).lemma_filter_push(rows@[i as int], in_window(*w));
        }
        if w.contains(rows[i].day) {
            out.push(rows[i].clone());
        }
        i += 1;
    }
    proof {
        assert(rows@.take(rows@.len() as int) == rows@);
    }
    out
}

/// The session calendar of the first asset declared with `key`; continuous
/// when none is.
pub open spec fn calendar_of(assets: Seq<CanonicalAsset>, key: Seq<char>) -> SessionCalendar
    decreases assets.len(),
{
    if assets.len() == 0 {
        SessionCalendar::Continuous
    } else if assets[0].key.0@ == key {
        assets[0].session_calendar
    } else {
        calendar_of(assets.drop_first(), key)
    }
}

pub fn session_calendar_for(assets: &Vec<CanonicalAsset>, key: &String) -> (r: SessionCalendar)
    ensures
        r == calendar_of(assets@, key@),
{
    let mut i: usize = 0;
    while i < assets.len()
        invariant
            i <= assets@.len(),
            calendar_of(assets@, key@) == calendar_of(assets@.skip(i as int), key@),
        decreases assets.len() - i,
    {
        proof {
            assert(assets@.skip(i as int).drop_first() == assets@.skip(i + 1));
        }
        if assets[i].key.0 == *key {
            return assets[i].session_calendar;
        }
        i += 1;
    }
    SessionCalendar::default_calendar()
}

/// `g` is of the open kind `kind`.
pub open spec fn other_kind(g: CoverageGap, kind: Seq<char>) -> bool {
    g.kind matches MissingKind::Other(k) && k@ == kind
}

/// `g` is a detected gap of the open kind `kind`, with the given scope and reason.
pub open spec fn detected_other_gap(
    g: CoverageGap,
    kind: Seq<char>,
    scope: Seq<char>,
    reason: Seq<char>,
) -> bool {
    &&& g.kind matches MissingKind::Other(k) && k@ == kind
    &&& g.scope@ == scope
    &&& g.reason@ == reason
    &&& g.source == GapSource::Detected
}

/// The reason recorded for a window with no observations at all.
pub open spec fn empty_window_reason(subject: Seq<char>, w: EventWindow) -> Seq<char> {
    "no "@ + subject + " observations in window '"@ + w.name@ + "' (0 of "@ + decimal_digits(
        (w.end.num() - w.start.num() + 1) as nat,
    ) + " days)"@
}

/// The reason recorded for a window that misses some of its days.
pub open spec fn partial_window_reason(missing: nat, total: nat, w: EventWindow) -> Seq<char> {
    decimal_digits(missing) + " of "@ + decimal_digits(total) + " days missing in window '"@
        + w.name@ + "'"@
}

/// The scope of a per-window gap: `subject@window`.
pub open spec fn window_scope(subject: Seq<char>, w: EventWindow) -> Seq<char> {
    subject + "@"@ + w.name@
}

/// `r` is the summary of the sorted in-window series `s`; for the baseline
/// window itself the baseline-normalized volume (definitionally one) is left out.
pub open spec fn window_summary_of(
    r: ResponseSeriesSummary,
    s: Seq<ResponseObservation>,
    w: EventWindow,
    baseline: Seq<ResponseObservation>,
    calendar: SessionCalendar,
    is_baseline: bool,
) -> bool {
    if is_baseline {
        exists|o: ResponseSeriesSummary|
            #[trigger] response_summary_of(o, s, w, baseline, calendar) && r
                == (ResponseSeriesSummary { baseline_normalized_volume: None, ..o })
    } else {
        response_summary_of(r, s, w, baseline, calendar)
    }
}

pub fn empty_window_text(subject: &str, w: &EventWindow) -> (r: String)
    requires
        w.start.num() <= w.end.num(),
    ensures
        r@ == empty_window_reason(subject@, *w),
{
    String::from_str("no ").concat(subject).concat(" observations in window '").concat(
        w.name.as_str(),
    ).concat("' (0 of ").concat(count_text(inclusive_day_count(w)).as_str()).concat(" days)")
}

pub fn partial_window_text(missing: usize, total: usize, w: &EventWindow) -> (r: String)
    ensures
        r@ == partial_window_reason(missing as nat, total as nat, *w),
{
    count_text(missing).concat(" of ").concat(count_text(total).as_str()).concat(
        " days missing in window '",
    ).concat(w.name.as_str()).concat("'")
}

pub fn window_scope_text(subject: &String, w: &EventWindow) -> (r: String)
    ensures
        r@ == window_scope(subject@, *w),
{
    subject.clone().concat("@").concat(w.name.as_str())
}

/// One response window of one asset: a gap when the window holds no rows;
/// otherwise the window's summary, and a gap when days are missing.
pub fn respond_window(
    key: &String,
    series: &Vec<ResponseObservation>,
    window: &EventWindow,
    baseline: &Vec<ResponseObservation>,
    calendar: SessionCalendar,
    baseline_name: &String,
    boundary: &mut EvidenceBoundary,
    summaries: &mut Vec<ResponseSeriesSummary>,
) -> (r: Result<(), AnalyzeError>)
    requires
        window.start.num() <= window.end.num(),
        forall|i: int| 0 <= i < series@.len() ==> (#[trigger] series@[i]).asset_key.0@ == key@,
    ensures
        final(boundary).assumptions@ == old(boundary).assumptions@,
        ({
            let s = series@.filter(in_window(*window));
            let sorted = stable_sort(s);
            &&& s.len() == 0 ==> {
                &&& r is Ok
                &&& final(summaries)@ == old(summaries)@
                &&& final(boundary).missing@.len() == old(boundary).missing@.len() + 1
                &&& final(boundary).missing@.drop_last() == old(boundary).missing@
                &&& detected_other_gap(
                    final(boundary).missing@.last(),
                    "response_coverage"@,
                    window_scope(key@, *window),
                    empty_window_reason("response"@, *window),
                )
            }
            &&& s.len() > 0 ==> (r is Ok <==> (response_series_ok(sorted) && response_fits(
                sorted,
                baseline@,
            )))
            &&& (s.len() > 0 && r is Ok) ==> {
                &&& final(summaries)@.len() == old(summaries)@.len() + 1
                &&& final(summaries)@.drop_last() == old(summaries)@
                &&& window_summary_of(
                    final(summaries)@.last(),
                    sorted,
                    *window,
                    baseline@,
                    calendar,
                    window.name@ == baseline_name@,
                )
                &&& final(summaries)@.last().observed_days < final(summaries)@.last().window_days
                    ==> {
                    &&& final(boundary).missing@.len() == old(boundary).missing@.len() + 1
                    &&& final(boundary).missing@.drop_last() == old(boundary).missing@
                    &&& detected_other_gap(
                        final(boundary).missing@.last(),
                        "response_coverage"@,
                        window_scope(key@, *window),
                        partial_window_reason(
                            (final(summaries)@.last().window_days
                                - final(summaries)@.last().observed_days) as nat,
                            final(summaries)@.last().window_days as nat,
                            *window,
                        ),
                    )
                }
                &&& final(summaries)@.last().observed_days >= final(summaries)@.last().window_days
                    ==> final(boundary).missing@ == old(boundary).missing@
            }
            &&& r is Err ==> (r matches Err(AnalyzeError::Response(_)) && final(summaries)@ == old(summaries)@ && final(boundary).missing@ == old(boundary).missing@)
            &&& r matches Err(AnalyzeError::Response(e)) ==> response_error_is(e, sorted)
        }),
{
    let in_window_rows = rows_in_window(series, window);
    if in_window_rows.len() == 0 {
        let gap = CoverageGap::new(
            MissingKind::Other(String::from_str("response_coverage")),
            window_scope_text(key, window),
            empty_window_text("response", window),
        );
        boundary.push_detected(gap);
        return Ok(());
    }
    proof {
        assert forall|i: int| 0 <= i < in_window_rows@.len() implies (#[trigger] in_window_rows@[i]).asset_key.0@
            == key@ by {
            series@.lemma_filter_contains_rev(in_window(*window), in_window_rows@[i]);
            assert(series@.filter(in_window(*window)).contains(in_window_rows@[i]));
        }
    }
    let mut summary = match account_market_response(in_window_rows, window, baseline, calendar) {
        Ok(s) => s,
        Err(e) => {
            return Err(AnalyzeError::Response(e));
        },
    };
    if window.name == *baseline_name {
        summary.baseline_normalized_volume = None;
    }
    if summary.observed_days < summary.window_days {
        let gap = CoverageGap::new(
            MissingKind::Other(String::from_str("response_coverage")),
            window_scope_text(key, window),
            partial_window_text(summary.window_days - summary.observed_days, summary.window_days, window),
        );
        boundary.push_detected(gap);
    }
    summaries.push(summary);
    Ok(())
}

/// The keys of the rows among `rows`, the declared or the undeclared ones.
pub open spec fn row_keys(rows: Seq<ResponseObservation>, assets: Seq<CanonicalAsset>, declared: bool) -> Set<
    Seq<char>,
> {
    Set::new(
        |k: Seq<char>|
            exists|i: int|
                0 <= i < rows.len() && (#[trigger] rows[i]).asset_key.0@ == k && key_declared(
                    assets,
                    k,
                ) == declared,
    )
}

fn sorted_row_keys(rows: &Vec<ResponseObservation>, assets: &Vec<CanonicalAsset>) -> (r: (
    Vec<String>,
    Vec<String>,
))
    ensures
        strictly_sorted(r.0@.map_values(|x: String| x@)),
        strictly_sorted(r.1@.map_values(|x: String| x@)),
        r.0@.map_values(|x: String| x@).to_set() == row_keys(rows@, assets@, true),
        r.1@.map_values(|x: String| x@).to_set() == row_keys(rows@, assets@, false),
{
    let mut declared: Vec<String> = Vec::new();
    let mut undeclared: Vec<String> = Vec::new();
    let mut i: usize = 0;
    proof {
        assert(declared@.map_values(|x: String| x@).to_set() =~= row_keys(
            rows@.take(0),
            assets@,
            true,
        ));
        assert(undeclared@.map_values(|x: String| x@).to_set() =~= row_keys(
            rows@.take(0),
            assets@,
            false,
        ));
    }
    while i < rows.len()
        invariant
            i <= rows@.len(),
            strictly_sorted(declared@.map_values(|x: String| x@)),
            strictly_sorted(undeclared@.map_values(|x: String| x@)),
            declared@.map_values(|x: String| x@).to_set() == row_keys(
                rows@.take(i as int),
                assets@,
                true,
            ),
            undeclared@.map_values(|x: String| x@).to_set() == row_keys(
                rows@.take(i as int),
                assets@,
                false,
            ),
        decreases rows.len() - i,
    {
        let key = &rows[i].asset_key;
        let known = crate::project::validate::find_key(assets, key);
        proof {
            let t = rows@.take(i as int);
            let t1 = rows@.take(i + 1);
            assert(t1 == t.push(rows@[i as int]));
            assert(row_keys(t1, assets@, known) =~= row_keys(t, assets@, known).insert(key.0@)) by {
                assert forall|k: Seq<char>| row_keys(t1, assets@, known).contains(k) implies row_keys(
                    t,
                    assets@,
                    known,
                ).insert(key.0@).contains(k) by {
                    let j = choose|j: int|
                        0 <= j < t1.len() && (#[trigger] t1[j]).asset_key.0@ == k && key_declared(
                            assets@,
                            k,
                        ) == known;
                    if j < i {
                        assert(t[j] == t1[j]);
                    }
                }
                assert forall|k: Seq<char>| row_keys(t, assets@, known).insert(key.0@).contains(
                    k,
                ) implies row_keys(t1, assets@, known).contains(k) by {
                    if k == key.0@ {
                        assert(t1[i as int] == rows@[i as int]);
                    } else {
                        let j = choose|j: int|
                            0 <= j < t.len() && (#[trigger] t[j]).asset_key.0@ == k && key_declared(
                                assets@,
                                k,
                            ) == known;
                        assert(t1[j] == t[j]);
                    }
                }
            }
            let other = !known;
            assert(row_keys(t1, assets@, other) =~= row_keys(t, assets@, other)) by {
                assert forall|k: Seq<char>| #[trigger] row_keys(t1, assets@, other).contains(k) implies row_keys(
                    t,
                    assets@,
                    other,
                ).contains(k) by {
                    let j = choose|j: int|
                        0 <= j < t1.len() && (#[trigger] t1[j]).asset_key.0@ == k && key_declared(
                            assets@,
                            k,
                        ) == other;
                    if j < i {
                        assert(t[j] == t1[j]);
                    }
                }
                assert forall|k: Seq<char>| #[trigger] row_keys(t, assets@, other).contains(k) implies row_keys(
                    t1,
                    assets@,
                    other,
                ).contains(k) by {
                    let j = choose|j: int|
                        0 <= j < t.len() && (#[trigger] t[j]).asset_key.0@ == k && key_declared(
                            assets@,
                            k,
                        ) == other;
                    assert(t1[j] == t[j]);
                }
            }
        }
        if known {
            insert_sorted(&mut declared, &key.0);
        } else {
            insert_sorted(&mut undeclared, &key.0);
        }
        i += 1;
    }
    proof {
        assert(rows@.take(rows@.len() as int) == rows@);
    }
    (declared, undeclared)
}

/// Index of the first window named `name` at or after `i`; `ws.len()` if none.
pub open spec fn first_named(ws: Seq<EventWindow>, name: Seq<char>, i: int) -> int
    decreases ws.len() - i,
{
    if i >= ws.len() || i < 0 {
        ws.len() as int
    } else if ws[i].name@ == name {
        i
    } else {
        first_named(ws, name, i + 1)
    }
}

pub fn find_window(ws: &Vec<EventWindow>, name: &String) -> (r: usize)
    ensures
        r == first_named(ws@, name@, 0),
{
    let mut i: usize = 0;
    while i < ws.len()
        invariant
            i <= ws@.len(),
            first_named(ws@, name@, 0) == first_named(ws@, name@, i as int),
        decreases ws.len() - i,
    {
        if ws[i].name == *name {
            return i;
        }
        i += 1;
    }
    i
}

/// The baseline window's index in the project, for a requested section.
pub open spec fn baseline_index(cfg: ProjectConfig) -> int {
    first_named(cfg.windows@, cfg.response.unwrap().baseline_window@, 0)
}

/// `x` is the summary of asset `key` in window `w` of the project.
pub open spec fn summary_for(
    cfg: ProjectConfig,
    rows: Seq<ResponseObservation>,
    x: ResponseSeriesSummary,
    key: Seq<char>,
    w: int,
) -> bool {
    let ws = cfg.windows@;
    let series = rows.filter(of_key(key));
    let bname = cfg.response.unwrap().baseline_window@;
    &&& 0 <= w < ws.len()
    &&& window_for_response(ws[w])
    &&& series.filter(in_window(ws[w])).len() > 0
    &&& window_summary_of(
        x,
        stable_sort(series.filter(in_window(ws[w]))),
        ws[w],
        series.filter(in_window(ws[baseline_index(cfg)])),
        calendar_of(cfg.assets@, key),
        ws[w].name@ == bname,
    )
}

/// Whether window `w` of the project holds rows of asset `key`.
pub open spec fn has_rows_in(cfg: ProjectConfig, rows: Seq<ResponseObservation>, key: Seq<char>, w: int) -> bool {
    &&& 0 <= w < cfg.windows@.len()
    &&& window_for_response(cfg.windows@[w])
    &&& rows.filter(of_key(key)).filter(in_window(cfg.windows@[w])).len() > 0
}

/// The summaries `data` are those of the declared keys `keys` (in text
/// order) and the response windows (in declared order) that hold rows:
/// `origin[t]` names the key and the window of `data[t]`.
pub open spec fn market_data(
    cfg: ProjectConfig,
    rows: Seq<ResponseObservation>,
    keys: Seq<Seq<char>>,
    origin: Seq<(int, int)>,
    data: Seq<ResponseSeriesSummary>,
) -> bool {
    &&& strictly_sorted(keys)
    &&& keys.to_set() == row_keys(rows, cfg.assets@, true)
    &&& origin.len() == data.len()
    &&& forall|t: int|
        0 <= t < origin.len() ==> 0 <= (#[trigger] origin[t]).0 < keys.len() && summary_for(
            cfg,
            rows,
            data[t],
            keys[origin[t].0],
            origin[t].1,
        )
    &&& forall|a: int, b: int|
        0 <= a < b < origin.len() ==> (#[trigger] origin[a]).0 < (#[trigger] origin[b]).0 || (
        origin[a].0 == origin[b].0 && origin[a].1 < origin[b].1)
    &&& forall|k: int, w: int|
        0 <= k < keys.len() && #[trigger] has_rows_in(cfg, rows, keys[k], w) ==> exists|t: int|
            0 <= t < origin.len() && #[trigger] origin[t] == (k, w)
}

/// Missing responses stay missing: every summary of the market-response
/// section comes from at least one observed day of its asset in its window
/// (none is filled in for a window without rows), and each carries the note
/// that response accounting identifies no capital flow.
pub proof fn law_response_summaries_are_observed(
    cfg: ProjectConfig,
    rows: Seq<ResponseObservation>,
    keys: Seq<Seq<char>>,
    origin: Seq<(int, int)>,
    data: Seq<ResponseSeriesSummary>,
)
    requires
        market_data(cfg, rows, keys, origin, data),
    ensures
        forall|t: int|
            0 <= t < data.len() ==> (#[trigger] data[t]).observed_days > 0
                && data[t].interpretation_boundary@ == response_boundary_note(),
{
    assert forall|t: int| 0 <= t < data.len() implies (#[trigger] data[t]).observed_days > 0
        && data[t].interpretation_boundary@ == response_boundary_note() by {
        let key = keys[origin[t].0];
        let w = origin[t].1;
        assert(summary_for(cfg, rows, data[t], key, w));
        let ws = cfg.windows@;
        let series = rows.filter(of_key(key));
        let s = series.filter(in_window(ws[w]));
        let sorted = stable_sort(s);
        crate::sort::lemma_stable_sort(s);
        let b = series.filter(in_window(ws[baseline_index(cfg)]));
        let cal = calendar_of(cfg.assets@, key);
        if ws[w].name@ == cfg.response.unwrap().baseline_window@ {
            let o = choose|o: ResponseSeriesSummary|
                #[trigger] response_summary_of(o, sorted, ws[w], b, cal) && data[t]
                    == (ResponseSeriesSummary { baseline_normalized_volume: None, ..o });
            assert(data[t].observed_days == o.observed_days);
        }
    }
}

/// In the market-response section, the summary of the baseline window itself
/// carries no baseline-normalized volume: against itself it would be one by
/// definition.
pub proof fn law_baseline_window_not_self_normalized(
    cfg: ProjectConfig,
    rows: Seq<ResponseObservation>,
    keys: Seq<Seq<char>>,
    origin: Seq<(int, int)>,
    data: Seq<ResponseSeriesSummary>,
)
    requires
        cfg.response is Some,
        market_data(cfg, rows, keys, origin, data),
    ensures
        forall|t: int|
            0 <= t < data.len() && (#[trigger] data[t]).window_name@ == cfg.response.unwrap().baseline_window@
                ==> data[t].baseline_normalized_volume is None,
{
    assert forall|t: int|
        0 <= t < data.len() && (#[trigger] data[t]).window_name@ == cfg.response.unwrap().baseline_window@
            implies data[t].baseline_normalized_volume is None by {
        let key = keys[origin[t].0];
        let w = origin[t].1;
        assert(summary_for(cfg, rows, data[t], key, w));
        let ws = cfg.windows@;
        let series = rows.filter(of_key(key));
        let s = stable_sort(series.filter(in_window(ws[w])));
        let b = series.filter(in_window(ws[baseline_index(cfg)]));
        let cal = calendar_of(cfg.assets@, key);
        if ws[w].name@ != cfg.response.unwrap().baseline_window@ {
            assert(response_summary_of(data[t], s, ws[w], b, cal));
            assert(false);
        }
    }
}

/// A gap the market-response section records for an asset and window, as
/// plain values: its scope and reason (its kind is `response_coverage`).
pub type MarketNote = (Seq<char>, Seq<char>);

/// Whether the gaps `gs` are those the notes describe, in order.
pub open spec fn market_notes_match(gs: Seq<CoverageGap>, notes: Seq<MarketNote>) -> bool {
    &&& gs.len() == notes.len()
    &&& forall|i: int|
        0 <= i < gs.len() ==> detected_other_gap(
            #[trigger] gs[i],
            "response_coverage"@,
            notes[i].0,
            notes[i].1,
        )
}

proof fn lemma_market_notes_push(gs: Seq<CoverageGap>, notes: Seq<MarketNote>, g: CoverageGap, n: MarketNote)
    requires
        market_notes_match(gs, notes),
        detected_other_gap(g, "response_coverage"@, n.0, n.1),
    ensures
        market_notes_match(gs.push(g), notes.push(n)),
{
    assert forall|i: int| 0 <= i < gs.push(g).len() implies detected_other_gap(
        #[trigger] gs.push(g)[i],
        "response_coverage"@,
        notes.push(n)[i].0,
        notes.push(n)[i].1,
    ) by {
        if i < gs.len() {
            assert(gs.push(g)[i] == gs[i]);
            assert(notes.push(n)[i] == notes[i]);
        }
    }
}

/// The gap of asset `key` in response window `w`: no rows, or some sessions
/// missing under the asset's calendar.
pub open spec fn response_window_note(
    cfg: ProjectConfig,
    rows: Seq<ResponseObservation>,
    key: Seq<char>,
    w: EventWindow,
) -> Seq<MarketNote> {
    let s = rows.filter(of_key(key)).filter(in_window(w));
    let days = session_count(calendar_of(cfg.assets@, key), w.start.num(), w.end.num());
    if s.len() == 0 {
        seq![(window_scope(key, w), empty_window_reason("response"@, w))]
    } else if s.len() < days {
        seq![(window_scope(key, w), partial_window_reason((days - s.len()) as nat, days as nat, w))]
    } else {
        Seq::empty()
    }
}

/// The gaps of asset `key` in the response windows among the first `n`.
pub open spec fn key_notes(cfg: ProjectConfig, rows: Seq<ResponseObservation>, key: Seq<char>, n: int) -> Seq<
    MarketNote,
>
    decreases n,
{
    if n <= 0 {
        Seq::empty()
    } else {
        key_notes(cfg, rows, key, n - 1) + if window_for_response(cfg.windows@[n - 1]) {
            response_window_note(cfg, rows, key, cfg.windows@[n - 1])
        } else {
            Seq::empty()
        }
    }
}

/// The gaps of the first `n` of the asset keys `keys`, in order.
pub open spec fn market_notes(cfg: ProjectConfig, rows: Seq<ResponseObservation>, keys: Seq<Seq<char>>, n: int) -> Seq<
    MarketNote,
>
    decreases n,
{
    if n <= 0 {
        Seq::empty()
    } else {
        market_notes(cfg, rows, keys, n - 1) + key_notes(cfg, rows, keys[n - 1], cfg.windows@.len() as int)
    }
}

/// Whether summarizing asset `key` in window `w` fails.
pub open spec fn respond_fails(cfg: ProjectConfig, rows: Seq<ResponseObservation>, key: Seq<char>, w: int) -> bool {
    let ws = cfg.windows@;
    let series = rows.filter(of_key(key));
    let s = series.filter(in_window(ws[w]));
    let sorted = stable_sort(s);
    &&& window_for_response(ws[w])
    &&& s.len() > 0
    &&& !(response_series_ok(sorted) && response_fits(
        sorted,
        series.filter(in_window(ws[baseline_index(cfg)])),
    ))
}

/// The rows of asset `key` in window `w`, sorted by day.
pub open spec fn window_series(cfg: ProjectConfig, rows: Seq<ResponseObservation>, key: Seq<char>, w: int) -> Seq<
    ResponseObservation,
> {
    stable_sort(rows.filter(of_key(key)).filter(in_window(cfg.windows@[w])))
}

/// Whether summarizing asset `keys[k]` in window `w` is the first summary
/// that fails, the declared keys with rows taken in text order (`keys`) and
/// the windows of each in declared order.
pub open spec fn first_market_failure(
    cfg: ProjectConfig,
    rows: Seq<ResponseObservation>,
    keys: Seq<Seq<char>>,
    k: int,
    w: int,
) -> bool {
    &&& strictly_sorted(keys)
    &&& keys.to_set() == row_keys(rows, cfg.assets@, true)
    &&& 0 <= k < keys.len()
    &&& 0 <= w < cfg.windows@.len()
    &&& respond_fails(cfg, rows, keys[k], w)
    &&& forall|k2: int, w2: int|
        0 <= k2 < k && 0 <= w2 < cfg.windows@.len() ==> !#[trigger] respond_fails(cfg, rows, keys[k2], w2)
    &&& forall|w2: int| 0 <= w2 < w ==> !#[trigger] respond_fails(cfg, rows, keys[k], w2)
}

/// Whether summarizing some declared asset with rows in some response window fails.
pub open spec fn market_fails(cfg: ProjectConfig, rows: Seq<ResponseObservation>) -> bool {
    exists|key: Seq<char>, w: int|
        row_keys(rows, cfg.assets@, true).contains(key) && 0 <= w < cfg.windows@.len()
            && #[trigger] respond_fails(cfg, rows, key, w)
}

/// The gaps of a market-response section after the caveats it started with
/// (`n0` of them): a gap per undeclared asset key, in text order, then the
/// window gaps of the declared keys with rows, in text order.
pub open spec fn market_gaps(
    cfg: ProjectConfig,
    rows: Seq<ResponseObservation>,
    ghosts: Seq<Seq<char>>,
    keys: Seq<Seq<char>>,
    n0: int,
    fin: Seq<CoverageGap>,
) -> bool {
    let notes = market_notes(cfg, rows, keys, keys.len() as int);
    &&& strictly_sorted(ghosts)
    &&& ghosts.to_set() == row_keys(rows, cfg.assets@, false)
    &&& strictly_sorted(keys)
    &&& keys.to_set() == row_keys(rows, cfg.assets@, true)
    &&& fin.len() == n0 + ghosts.len() + notes.len()
    &&& market_notes_match(fin.subrange(n0 + ghosts.len(), fin.len() as int), notes)
}

/// The reason given when the response input is not set.
pub open spec fn response_not_requested_reason() -> Seq<char> {
    "inputs.response not set; market-response section not requested"@
}

/// The reason given when the `[response]` table is missing.
pub open spec fn response_config_missing_reason() -> Seq<char> {
    "[response] config missing despite inputs.response"@
}

/// The reason given when no declared asset has an in-window row.
pub open spec fn no_response_rows_reason() -> Seq<char> {
    "response input present but no in-window observations for declared assets"@
}

/// The market-response section of a project over the rows read from its
/// response input. Rows of undeclared assets are set aside and recorded once
/// per asset; each declared asset is accounted in each response window that
/// holds its rows, and windows without rows, or missing days, are recorded as
/// coverage gaps.
pub fn compute_market_response(
    cfg: &ProjectConfig,
    rows: &Vec<ResponseObservation>,
    boundary: &mut EvidenceBoundary,
) -> (r: Result<EvidenceSection<Vec<ResponseSeriesSummary>>, AnalyzeError>)
    requires
        forall|i: int|
            0 <= i < cfg.windows@.len() ==> (#[trigger] cfg.windows@[i]).start.num()
                <= cfg.windows@[i].end.num(),
        response_requested(*cfg) ==> window_named_before(
            cfg.windows@,
            cfg.windows@.len() as int,
            cfg.response.unwrap().baseline_window@,
        ),
    ensures
        final(boundary).assumptions@ == old(boundary).assumptions@,
        cfg.inputs.response is None ==> (r matches Ok(EvidenceSection::NotDeclared { reason })
            && reason@ == response_not_requested_reason() && final(boundary).missing@ == old(boundary).missing@),
        cfg.inputs.response is Some && cfg.response is None ==> (r matches Ok(
            EvidenceSection::NotDeclared { reason },
        ) && reason@ == response_config_missing_reason() && final(boundary).missing@ == old(boundary).missing@),
        response_requested(*cfg) ==> {
            &&& (r is Err ==> (r matches Err(AnalyzeError::Response(_))))
            &&& (r is Ok <==> !market_fails(*cfg, rows@))
            &&& r matches Err(AnalyzeError::Response(e)) ==> exists|keys: Seq<Seq<char>>, k: int, w: int|
                #[trigger] first_market_failure(*cfg, rows@, keys, k, w) && response_error_is(
                    e,
                    window_series(*cfg, rows@, keys[k], w),
                )
            &&& r is Ok ==> exists|ghosts: Seq<Seq<char>>, keys: Seq<Seq<char>>|
                #[trigger] market_gaps(
                    *cfg,
                    rows@,
                    ghosts,
                    keys,
                    old(boundary).missing@.len() as int,
                    final(boundary).missing@,
                )
            &&& old(boundary).missing@.len() <= final(boundary).missing@.len()
            &&& final(boundary).missing@.take(old(boundary).missing@.len() as int) == old(boundary).missing@
            &&& r is Ok ==> exists|ghosts: Seq<Seq<char>>|
                #[trigger] strictly_sorted(ghosts) && ghosts.to_set() == row_keys(
                    rows@,
                    cfg.assets@,
                    false,
                ) && old(boundary).missing@.len() + ghosts.len() <= final(boundary).missing@.len()
                    && (forall|g: int|
                    0 <= g < ghosts.len() ==> detected_other_gap(
                        #[trigger] final(boundary).missing@[old(boundary).missing@.len() + g],
                        "undeclared_response_asset"@,
                        ghosts[g],
                        "response row asset_key not in project assets"@,
                    )) && (forall|g: int|
                    old(boundary).missing@.len() + ghosts.len() <= g < final(boundary).missing@.len() ==> (other_kind(#[trigger] final(boundary).missing@[g], "response_coverage"@)))
            &&& r is Ok ==> exists|keys: Seq<Seq<char>>, origin: Seq<(int, int)>|
                #[trigger] market_data(
                    *cfg,
                    rows@,
                    keys,
                    origin,
                    section_data(r),
                )
            &&& (r is Ok ==> ((r matches Ok(EvidenceSection::Available { data }) && data@.len() > 0)
                || (r matches Ok(EvidenceSection::NotObservable { reason }) && reason@
                == no_response_rows_reason())))
        },
{
    if cfg.inputs.response.is_none() {
        return Ok(
            EvidenceSection::not_declared(
                String::from_str("inputs.response not set; market-response section not requested"),
            ),
        );
    }
    let resp_cfg = match &cfg.response {
        Some(rc) => rc,
        None => {
            return Ok(
                EvidenceSection::not_declared(
                    String::from_str("[response] config missing despite inputs.response"),
                ),
            );
        },
    };
    let ghost old_len = boundary.missing@.len();
    let (keys, undeclared) = sorted_row_keys(rows, &cfg.assets);
    let mut g: usize = 0;
    while g < undeclared.len()
        invariant
            g <= undeclared@.len(),
            boundary.assumptions@ == old(boundary).assumptions@,
            boundary.missing@.len() == old_len + g,
            old_len == old(boundary).missing@.len(),
            boundary.missing@.take(old_len as int) == old(boundary).missing@,
            forall|j: int|
                0 <= j < g ==> detected_other_gap(
                    #[trigger] boundary.missing@[old_len + j],
                    "undeclared_response_asset"@,
                    undeclared@[j]@,
                    "response row asset_key not in project assets"@,
                ),
        decreases undeclared.len() - g,
    {
        let gap = CoverageGap::new(
            MissingKind::Other(String::from_str("undeclared_response_asset")),
            undeclared[g].clone(),
            String::from_str("response row asset_key not in project assets"),
        );
        boundary.push_detected(gap);
        g += 1;
    }
    let ghost mid_len = boundary.missing@.len();
    let ghost mid_missing = boundary.missing@;
    let ghost useq = undeclared@.map_values(|x: String| x@);
    proof {
        assert forall|j: int| 0 <= j < useq.len() implies detected_other_gap(
            #[trigger] mid_missing[old_len + j],
            "undeclared_response_asset"@,
            useq[j],
            "response row asset_key not in project assets"@,
        ) by {
            assert(useq[j] == undeclared@[j]@);
        }
    }
    let ghost kseq = keys@.map_values(|x: String| x@);
    let b = find_window(&cfg.windows, &resp_cfg.baseline_window);
    proof {
        lemma_first_named_found(cfg.windows@, resp_cfg.baseline_window@, 0);
    }
    let baseline_window = &cfg.windows[b];
    let mut summaries: Vec<ResponseSeriesSummary> = Vec::new();
    let ghost mut origin: Seq<(int, int)> = Seq::empty();
    let mut ki: usize = 0;
    while ki < keys.len()
        invariant
            ki <= keys@.len(),
            kseq == keys@.map_values(|x: String| x@),
            strictly_sorted(kseq),
            kseq.to_set() == row_keys(rows@, cfg.assets@, true),
            response_requested(*cfg),
            *resp_cfg == cfg.response.unwrap(),
            b == baseline_index(*cfg),
            b < cfg.windows@.len(),
            *baseline_window == cfg.windows@[b as int],
            forall|i: int|
                0 <= i < cfg.windows@.len() ==> (#[trigger] cfg.windows@[i]).start.num()
                    <= cfg.windows@[i].end.num(),
            boundary.assumptions@ == old(boundary).assumptions@,
            old_len <= mid_len <= boundary.missing@.len(),
            old_len == old(boundary).missing@.len(),
            mid_len == mid_missing.len(),
            mid_missing.take(old_len as int) == old(boundary).missing@,
            boundary.missing@.take(mid_len as int) == mid_missing,
            forall|j: int|
                mid_len <= j < boundary.missing@.len() ==> other_kind(#[trigger] boundary.missing@[j], "response_coverage"@),
            origin.len() == summaries@.len(),
            forall|t: int|
                0 <= t < origin.len() ==> 0 <= (#[trigger] origin[t]).0 < ki && summary_for(
                    *cfg,
                    rows@,
                    summaries@[t],
                    kseq[origin[t].0],
                    origin[t].1,
                ),
            forall|a: int, c: int|
                0 <= a < c < origin.len() ==> (#[trigger] origin[a]).0 < (#[trigger] origin[c]).0
                    || (origin[a].0 == origin[c].0 && origin[a].1 < origin[c].1),
            forall|k: int, w: int|
                0 <= k < ki && #[trigger] has_rows_in(*cfg, rows@, kseq[k], w) ==> exists|t: int|
                    0 <= t < origin.len() && #[trigger] origin[t] == (k, w),
            boundary.missing@.len() == mid_len + market_notes(*cfg, rows@, kseq, ki as int).len(),
            market_notes_match(
                boundary.missing@.subrange(mid_len as int, boundary.missing@.len() as int),
                market_notes(*cfg, rows@, kseq, ki as int),
            ),
            forall|k: int, w: int|
                0 <= k < ki && 0 <= w < cfg.windows@.len() ==> !#[trigger] respond_fails(
                    *cfg,
                    rows@,
                    kseq[k],
                    w,
                ),
        decreases keys.len() - ki,
    {
        let key = &keys[ki];
        let series = rows_of_key(rows, key);
        let calendar = session_calendar_for(&cfg.assets, key);
        let baseline = rows_in_window(&series, baseline_window);
        proof {
            assert(kseq[ki as int] == key@);
            assert forall|i: int| 0 <= i < series@.len() implies (#[trigger] series@[i]).asset_key.0@
                == key@ by {
                rows@.lemma_filter_contains_rev(of_key(key@), series@[i]);
            }
        }
        let mut wi: usize = 0;
        while wi < cfg.windows.len()
            invariant
                wi <= cfg.windows@.len(),
                ki < keys@.len(),
                *key == keys@[ki as int],
                kseq == keys@.map_values(|x: String| x@),
                series@ == rows@.filter(of_key(key@)),
                forall|i: int| 0 <= i < series@.len() ==> (#[trigger] series@[i]).asset_key.0@ == key@,
                baseline@ == series@.filter(in_window(cfg.windows@[b as int])),
                calendar == calendar_of(cfg.assets@, key@),
                response_requested(*cfg),
                *resp_cfg == cfg.response.unwrap(),
                b == baseline_index(*cfg),
                forall|i: int|
                    0 <= i < cfg.windows@.len() ==> (#[trigger] cfg.windows@[i]).start.num()
                        <= cfg.windows@[i].end.num(),
                boundary.assumptions@ == old(boundary).assumptions@,
                old_len <= mid_len <= boundary.missing@.len(),
                old_len == old(boundary).missing@.len(),
                mid_len == mid_missing.len(),
                mid_missing.take(old_len as int) == old(boundary).missing@,
            mid_missing.take(old_len as int) == old(boundary).missing@,
                boundary.missing@.take(mid_len as int) == mid_missing,
                b < cfg.windows@.len(),
                forall|j: int|
                    mid_len <= j < boundary.missing@.len() ==> other_kind(#[trigger] boundary.missing@[j], "response_coverage"@),
                origin.len() == summaries@.len(),
                forall|t: int|
                    0 <= t < origin.len() ==> 0 <= (#[trigger] origin[t]).0 <= ki && summary_for(
                        *cfg,
                        rows@,
                        summaries@[t],
                        kseq[origin[t].0],
                        origin[t].1,
                    ) && (origin[t].0 == ki ==> origin[t].1 < wi),
                forall|a: int, c: int|
                    0 <= a < c < origin.len() ==> (#[trigger] origin[a]).0 < (#[trigger] origin[c]).0
                        || (origin[a].0 == origin[c].0 && origin[a].1 < origin[c].1),
                forall|k: int, w: int|
                    0 <= k < ki && #[trigger] has_rows_in(*cfg, rows@, kseq[k], w) ==> exists|t: int|
                        0 <= t < origin.len() && #[trigger] origin[t] == (k, w),
                forall|w: int|
                    0 <= w < wi && #[trigger] has_rows_in(*cfg, rows@, kseq[ki as int], w)
                        ==> exists|t: int| 0 <= t < origin.len() && #[trigger] origin[t] == (ki as int, w),
                kseq[ki as int] == key@,
                strictly_sorted(kseq),
                kseq.to_set() == row_keys(rows@, cfg.assets@, true),
                boundary.missing@.len() == mid_len + market_notes(*cfg, rows@, kseq, ki as int).len()
                    + key_notes(*cfg, rows@, key@, wi as int).len(),
                market_notes_match(
                    boundary.missing@.subrange(mid_len as int, boundary.missing@.len() as int),
                    market_notes(*cfg, rows@, kseq, ki as int) + key_notes(*cfg, rows@, key@, wi as int),
                ),
                forall|k: int, w: int|
                    0 <= k < ki && 0 <= w < cfg.windows@.len() ==> !#[trigger] respond_fails(
                        *cfg,
                        rows@,
                        kseq[k],
                        w,
                    ),
                forall|w: int| 0 <= w < wi ==> !#[trigger] respond_fails(*cfg, rows@, key@, w),
            decreases cfg.windows.len() - wi,
        {
            let window = &cfg.windows[wi];
            if window.applies_to_response() {
                let ghost before_missing = boundary.missing@;
                let ghost before_len = summaries@.len();
                let ghost s_in = series@.filter(in_window(*window));
                proof {
                    crate::sort::lemma_stable_sort(s_in);
                }
                match respond_window(
                    key,
                    &series,
                    window,
                    &baseline,
                    calendar,
                    &resp_cfg.baseline_window,
                    boundary,
                    &mut summaries,
                ) {
                    Ok(()) => {},
                    Err(e) => {
                        proof {
                            assert(boundary.missing@.take(old_len as int) =~= mid_missing.take(
                                old_len as int,
                            ));
                            assert(kseq.contains(kseq[ki as int]));
                            assert(row_keys(rows@, cfg.assets@, true).contains(key@));
                            assert(respond_fails(*cfg, rows@, key@, wi as int));
                            assert(first_market_failure(*cfg, rows@, kseq, ki as int, wi as int));
                        }
                        return Err(e);
                    },
                }
                proof {
                    let wn = response_window_note(*cfg, rows@, key@, *window);
                    let sub0 = before_missing.subrange(mid_len as int, before_missing.len() as int);
                    let acc = market_notes(*cfg, rows@, kseq, ki as int) + key_notes(*cfg, rows@, key@, wi as int);
                    assert(acc + wn =~= market_notes(*cfg, rows@, kseq, ki as int) + key_notes(*cfg, rows@, key@, wi + 1));
                    if s_in.len() > 0 {
                        let x = summaries@.last();
                        let sorted = stable_sort(s_in);
                        if window.name@ == resp_cfg.baseline_window@ {
                            let o = choose|o: ResponseSeriesSummary|
                                #[trigger] response_summary_of(o, sorted, *window, baseline@, calendar) && x
                                    == (ResponseSeriesSummary { baseline_normalized_volume: None, ..o });
                            assert(x.observed_days == o.observed_days && x.window_days == o.window_days);
                        }
                        assert(x.observed_days == s_in.len());
                        assert(x.window_days == session_count(calendar, window.start.num(), window.end.num()));
                    }
                    if boundary.missing@.len() > before_missing.len() {
                        assert(wn == seq![wn[0]]);
                        lemma_market_notes_push(sub0, acc, boundary.missing@.last(), wn[0]);
                        assert(boundary.missing@.subrange(mid_len as int, boundary.missing@.len() as int) =~= sub0.push(boundary.missing@.last()));
                        assert(acc.push(wn[0]) =~= acc + wn);
                    } else {
                        assert(wn =~= Seq::<MarketNote>::empty());
                        assert(acc + wn =~= acc);
                    }
                    assert(!respond_fails(*cfg, rows@, key@, wi as int));
                    assert(boundary.missing@.take(mid_len as int) =~= before_missing.take(
                        mid_len as int,
                    ));
                    let old_origin = origin;
                    if summaries@.len() > before_len {
                        origin = origin.push((ki as int, wi as int));
                        assert(summary_for(
                            *cfg,
                            rows@,
                            summaries@[origin.len() - 1],
                            kseq[ki as int],
                            wi as int,
                        ));
                    }
                    assert forall|t: int| 0 <= t < old_origin.len() implies origin[t] == old_origin[t] by {}
                    assert forall|j: int|
                        mid_len <= j < boundary.missing@.len() implies other_kind(
                            #[trigger] boundary.missing@[j],
                            "response_coverage"@,
                        ) by {
                        if j < before_missing.len() {
                            assert(boundary.missing@[j] == before_missing[j]);
                        }
                    }
                    if has_rows_in(*cfg, rows@, kseq[ki as int], wi as int) {
                        assert(series@.filter(in_window(*window)).len() > 0);
                        assert(origin[origin.len() - 1] == (ki as int, wi as int));
                    }
                }
            }
            else {
                proof {
                    assert(key_notes(*cfg, rows@, key@, wi + 1) =~= key_notes(*cfg, rows@, key@, wi as int));
                }
            }
            proof {
                assert forall|w: int|
                    0 <= w < wi + 1 && #[trigger] has_rows_in(*cfg, rows@, kseq[ki as int], w)
                        implies exists|t: int| 0 <= t < origin.len() && #[trigger] origin[t] == (ki as int, w) by {
                    if w == wi {
                        assert(origin[origin.len() - 1] == (ki as int, w));
                    }
                }
            }
            wi += 1;
        }
        proof {
            assert(market_notes(*cfg, rows@, kseq, ki + 1) =~= market_notes(*cfg, rows@, kseq, ki as int)
                + key_notes(*cfg, rows@, key@, cfg.windows@.len() as int));
        }
        ki += 1;
    }
    proof {
        assert(boundary.missing@.take(old_len as int) =~= mid_missing.take(old_len as int));
        assert(strictly_sorted(useq));
        assert forall|j: int| 0 <= j < useq.len() implies detected_other_gap(
            #[trigger] boundary.missing@[old_len + j],
            "undeclared_response_asset"@,
            useq[j],
            "response row asset_key not in project assets"@,
        ) by {
            assert(boundary.missing@[old_len + j] == mid_missing[old_len + j]);
        }
        let data = summaries@;
        assert(market_data(*cfg, rows@, kseq, origin, data));
        assert(boundary.missing@.subrange(mid_len as int, boundary.missing@.len() as int)
            == boundary.missing@.subrange((old_len + useq.len()) as int, boundary.missing@.len() as int));
        assert(market_gaps(*cfg, rows@, useq, kseq, old_len as int, boundary.missing@));
        if market_fails(*cfg, rows@) {
            let (key, w) = choose|key: Seq<char>, w: int|
                row_keys(rows@, cfg.assets@, true).contains(key) && 0 <= w < cfg.windows@.len()
                    && #[trigger] respond_fails(*cfg, rows@, key, w);
            assert(kseq.to_set().contains(key));
            assert(kseq.contains(key));
            let k = choose|k: int| 0 <= k < kseq.len() && kseq[k] == key;
            assert(!respond_fails(*cfg, rows@, kseq[k], w));
            assert(false);
        }
    }
    if summaries.len() == 0 {
        let r = Ok(
            EvidenceSection::not_observable(
                String::from_str(
                    "response input present but no in-window observations for declared assets",
                ),
            ),
        );
        proof {
            assert(summaries@ =~= Seq::<ResponseSeriesSummary>::empty());
            assert(section_data(r) == summaries@);
            assert(market_data(*cfg, rows@, kseq, origin, section_data(r)));
        }
        return r;
    }
    let ghost data = summaries@;
    let r = Ok(EvidenceSection::available(summaries));
    proof {
        assert(section_data(r) == data);
        assert(market_data(*cfg, rows@, kseq, origin, section_data(r)));
    }
    r
}

proof fn lemma_first_named_found(ws: Seq<EventWindow>, name: Seq<char>, i: int)
    requires
        0 <= i,
        exists|j: int| i <= j < ws.len() && (#[trigger] ws[j]).name@ == name,
    ensures
        i <= first_named(ws, name, i) < ws.len(),
        ws[first_named(ws, name, i)].name@ == name,
    decreases ws.len() - i,
{
    if ws[i].name@ != name {
        lemma_first_named_found(ws, name, i + 1);
    }
}

} // verus!
