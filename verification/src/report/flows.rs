//! The directional-flow section: per declared route and flow window, the
//! flow summary of the route's in-window rows, with the route's unit and
//! attribution stamped from its measurement, and the coverage gaps that the
//! rows leave.
use crate::coverage::{CoverageGap, EvidenceBoundary, GapSource, MissingKind};
use crate::day::Day;
use crate::dec::Dec;
use crate::event::{window_for_flow, window_has, EventWindow};
use crate::evidence::EvidenceSection;
use crate::flow::{
    account_directional_flows, flow_checks_pass, flow_error_is, flow_fits, flow_summary_of, inclusive_day_count,
    sorted_flows, AttributionMethod, DirectionalFlowObservation, FlowSeriesSummary, FlowUnit,
};
use crate::identity::AssetKey;
use crate::ingest::daily_flows::RawDailyFlow;
use crate::ingest::daily_supply::{first_snapshot, missing_snapshot_message, supply_on};
use crate::order::{insert_sorted, strictly_sorted};
use crate::project::validate::{find_route_id, route_id_before};
use crate::project::ProjectConfig;
use crate::report::market::{
    empty_window_reason, empty_window_text, partial_window_reason, partial_window_text, window_scope,
    window_scope_text,
};
use crate::report::{section_data, AnalyzeError};
use crate::route::{DenominatorPolicy, FlowUnitConfig, Route};
use crate::text::count_text;
use vstd::prelude::*;
use vstd::string::*;

verus! {

broadcast use vstd::seq_lib::group_seq_properties;

/// Whether some route declares a denominator.
pub open spec fn wants_supply(cfg: ProjectConfig) -> bool {
    exists|j: int|
        0 <= j < cfg.routes@.len() && (#[trigger] cfg.routes@[j]).measurement.denominator is Some
}

/// The flow input to read: when routes are declared and the input is set.
pub fn flows_input(cfg: &ProjectConfig) -> (r: Option<String>)
    ensures
        cfg.routes@.len() > 0 ==> r == cfg.inputs.flows,
        cfg.routes@.len() == 0 ==> r is None,
{
    if cfg.routes.len() == 0 {
        None
    } else {
        match &cfg.inputs.flows {
            Some(rel) => Some(rel.clone()),
            None => None,
        }
    }
}

/// The supply input to read: when flows are read and some route declares a
/// denominator.
pub fn supply_input(cfg: &ProjectConfig) -> (r: Option<String>)
    ensures
        (cfg.routes@.len() > 0 && cfg.inputs.flows is Some && wants_supply(*cfg)) ==> r
            == cfg.inputs.supply,
        !(cfg.routes@.len() > 0 && cfg.inputs.flows is Some && wants_supply(*cfg)) ==> r is None,
{
    if cfg.routes.len() == 0 || cfg.inputs.flows.is_none() {
        return None;
    }
    let mut j: usize = 0;
    while j < cfg.routes.len()
        invariant
            j <= cfg.routes@.len(),
            cfg.routes@.len() > 0,
            cfg.inputs.flows is Some,
            forall|k: int| 0 <= k < j ==> (#[trigger] cfg.routes@[k]).measurement.denominator is None,
        decreases cfg.routes.len() - j,
    {
        if cfg.routes[j].measurement.denominator.is_some() {
            return match &cfg.inputs.supply {
                Some(rel) => Some(rel.clone()),
                None => None,
            };
        }
        j += 1;
    }
    None
}

/// The unit a route's flows are stamped with.
pub open spec fn unit_of(route: Route) -> FlowUnit {
    match route.measurement.unit {
        FlowUnitConfig::TokenNative => FlowUnit::TokenNative { asset: route.measurement.unit_asset },
        FlowUnitConfig::QuoteUsd => FlowUnit::QuoteUsd,
        FlowUnitConfig::Unknown => FlowUnit::Unknown,
    }
}

pub fn flow_unit_from_measurement(route: &Route) -> (r: FlowUnit)
    ensures
        r == unit_of(*route),
{
    match route.measurement.unit {
        FlowUnitConfig::TokenNative => FlowUnit::TokenNative {
            asset: route.measurement.unit_asset.clone(),
        },
        FlowUnitConfig::QuoteUsd => FlowUnit::QuoteUsd,
        FlowUnitConfig::Unknown => FlowUnit::Unknown,
    }
}

/// The denominator of a route: its supply snapshot, when it declares one
/// and the supply rows hold it.
pub open spec fn denominator_of(route: Route, supply: Option<Seq<(AssetKey, Day, Dec)>>) -> Option<Dec> {
    match route.measurement.denominator {
        None => None,
        Some(DenominatorPolicy::SupplySnapshot { asset, as_of }) => match supply {
            None => None,
            Some(rows) => {
                let k = first_snapshot(rows, asset.0@, as_of, 0);
                if k < rows.len() {
                    Some(rows[k].2)
                } else {
                    None
                }
            },
        },
    }
}

/// The supply rows read, by their view.
pub open spec fn supply_view(supply: Option<Vec<(AssetKey, Day, Dec)>>) -> Option<Seq<(AssetKey, Day, Dec)>> {
    match supply {
        Some(v) => Some(v@),
        None => None,
    }
}

/// The scope of a route's denominator gap: `route:asset`.
pub open spec fn denominator_scope(route: Route) -> Seq<char> {
    match route.measurement.denominator {
        Some(DenominatorPolicy::SupplySnapshot { asset, .. }) => route.id@ + ":"@ + asset.0@,
        None => route.id@,
    }
}

/// `g` is a detected gap of kind `kind` with the given scope and reason.
pub open spec fn detected_gap(g: CoverageGap, kind: MissingKind, scope: Seq<char>, reason: Seq<char>) -> bool {
    &&& g.kind == kind
    &&& g.scope@ == scope
    &&& g.reason@ == reason
    &&& g.source == GapSource::Detected
}

/// A route's denominator, recording a supply gap when it is requested but
/// cannot be found.
pub fn resolve_route_denominator(
    route: &Route,
    supply: &Option<Vec<(AssetKey, Day, Dec)>>,
    boundary: &mut EvidenceBoundary,
) -> (r: Option<Dec>)
    ensures
        r == denominator_of(*route, supply_view(*supply)),
        final(boundary).assumptions@ == old(boundary).assumptions@,
        (route.measurement.denominator is Some && r is None) ==> {
            &&& final(boundary).missing@.len() == old(boundary).missing@.len() + 1
            &&& final(boundary).missing@.drop_last() == old(boundary).missing@
            &&& final(boundary).missing@.last().kind == MissingKind::Supply
            &&& final(boundary).missing@.last().source == GapSource::Detected
            &&& final(boundary).missing@.last().scope@ == denominator_scope(*route)
            &&& supply is None ==> final(boundary).missing@.last().reason@
                == "denominator requested but inputs.supply missing"@
            &&& supply is Some ==> (route.measurement.denominator matches Some(
                DenominatorPolicy::SupplySnapshot { asset, as_of },
            ) && final(boundary).missing@.last().reason@ == missing_snapshot_message(
                asset.0@,
                as_of,
            ))
        },
        !(route.measurement.denominator is Some && r is None) ==> final(boundary).missing@ == old(
            boundary).missing@,
{
    let (asset, as_of) = match &route.measurement.denominator {
        None => {
            return None;
        },
        Some(DenominatorPolicy::SupplySnapshot { asset, as_of }) => (asset, *as_of),
    };
    let scope = route.id.clone().concat(":").concat(asset.as_str());
    let rows = match supply {
        None => {
            boundary.push_detected(
                CoverageGap::new(
                    MissingKind::Supply,
                    scope,
                    String::from_str("denominator requested but inputs.supply missing"),
                ),
            );
            return None;
        },
        Some(rows) => rows,
    };
    match supply_on(rows, asset, as_of) {
        Ok(value) => Some(value),
        Err(e) => {
            boundary.push_detected(CoverageGap::new(MissingKind::Supply, scope, e.message()));
            None
        },
    }
}

/// Rows of the route `id`.
pub open spec fn of_route(id: Seq<char>) -> spec_fn(RawDailyFlow) -> bool {
    |f: RawDailyFlow| f.route_id@ == id
}

/// The observation a row of `route` becomes, stamped with the route's unit
/// and attribution.
pub open spec fn obs_of(route: Route, f: RawDailyFlow) -> DirectionalFlowObservation {
    DirectionalFlowObservation {
        route_id: f.route_id,
        day: f.day,
        gross_a_to_b: f.gross_a_to_b,
        gross_b_to_a: f.gross_b_to_a,
        unit: unit_of(route),
        attribution: route.measurement.attribution,
    }
}

/// The index of the last of the first `n` routes with id `id`; `-1` if none.
pub open spec fn last_with_id(routes: Seq<Route>, id: Seq<char>, n: int) -> int
    decreases n,
{
    if n <= 0 {
        -1
    } else if routes[n - 1].id@ == id {
        n - 1
    } else {
        last_with_id(routes, id, n - 1)
    }
}

/// The route whose unit and attribution stamp the rows of route `r`: the
/// last declared route with its id (an id names one route; where it is
/// repeated, the last declaration is the one looked up).
pub open spec fn stamp_route(routes: Seq<Route>, r: int) -> Route {
    routes[last_with_id(routes, routes[r].id@, routes.len() as int)]
}

/// The index of the last declared route with the id of route `k`.
fn last_route_index(routes: &Vec<Route>, k: usize) -> (r: usize)
    requires
        k < routes@.len(),
    ensures
        r == last_with_id(routes@, routes@[k as int].id@, routes@.len() as int),
        k <= r < routes@.len(),
{
    let n = routes.len();
    let mut last: usize = k;
    let mut i: usize = k + 1;
    proof {
        assert(last_with_id(routes@, routes@[k as int].id@, k + 1) == k);
    }
    while i < n
        invariant
            n == routes@.len(),
            k < i <= routes@.len(),
            k <= last < i,
            last == last_with_id(routes@, routes@[k as int].id@, i as int),
        decreases routes.len() - i,
    {
        if routes[i].id == routes[k].id {
            last = i;
        }
        i += 1;
    }
    last
}

/// The observations of `route`, in row order.
pub open spec fn route_series(rows: Seq<RawDailyFlow>, route: Route) -> Seq<DirectionalFlowObservation> {
    rows.filter(of_route(route.id@)).map_values(|f: RawDailyFlow| obs_of(route, f))
}

/// Observations on a day of window `w`.
pub open spec fn obs_in(w: EventWindow) -> spec_fn(DirectionalFlowObservation) -> bool {
    |o: DirectionalFlowObservation| window_has(w, o.day.num())
}

pub fn series_for_route(rows: &Vec<RawDailyFlow>, route: &Route) -> (r: Vec<DirectionalFlowObservation>)
    ensures
        r@ == route_series(rows@, *route),
{
    let unit = flow_unit_from_measurement(route);
    let mut out: Vec<DirectionalFlowObservation> = Vec::new();
    let mut i: usize = 0;
    while i < rows.len()
        invariant
            i <= rows@.len(),
            unit == unit_of(*route),
            out@ == rows@.take(i as int).filter(of_route(route.id@)).map_values(
                |f: RawDailyFlow| obs_of(*route, f),
            ),
        decreases rows.len() - i,
    {
        proof {
            assert(rows@.take(i + 1) == rows@.take(i as int).push(rows@[i as int]));
            rows@.take(i as int).lemma_filter_push(rows@[i as int], of_route(route.id@));
        }
        if rows[i].route_id == route.id {
            let f = &rows[i];
            let o = DirectionalFlowObservation {
                route_id: f.route_id.clone(),
                day: f.day,
                gross_a_to_b: f.gross_a_to_b,
                gross_b_to_a: f.gross_b_to_a,
                unit: unit.clone(),
                attribution: route.measurement.attribution,
            };
            proof {
                let t = rows@.take(i as int).filter(of_route(route.id@));
                assert(t.push(rows@[i as int]).map_values(|f: RawDailyFlow| obs_of(*route, f))
                    =~= t.map_values(|f: RawDailyFlow| obs_of(*route, f)).push(o));
            }
            out.push(o);
        }
        i += 1;
    }
    proof {
        assert(rows@.take(rows@.len() as int) == rows@);
    }
    out
}

pub fn obs_in_window(series: &Vec<DirectionalFlowObservation>, w: &EventWindow) -> (r: Vec<
    DirectionalFlowObservation,
>)
    ensures
        r@ == series@.filter(obs_in(*w)),
{
    let mut out: Vec<DirectionalFlowObservation> = Vec::new();
    let mut i: usize = 0;
    while i < series.len()
        invariant
            i <= series@.len(),
            out@ == series@.take(i as int).filter(obs_in(*w)),
        decreases series.len() - i,
    {
        proof {
            assert(series@.take(i + 1) == series@.take(i as int).push(series@[i as int]));
            series@.take(i as int).lemma_filter_push(series@[i as int], obs_in(*w));
        }
        if w.contains(series[i].day) {
            out.push(series[i].clone());
        }
        i += 1;
    }
    proof {
        assert(series@.take(series@.len() as int) == series@);
    }
    out
}

/// The reason recorded for a window of a route without any flow rows.
pub open spec fn route_unseen_reason(w: EventWindow) -> Seq<char> {
    "no flow observations found for route in window '"@ + w.name@ + "' (0 of "@
        + crate::text::decimal_digits((w.end.num() - w.start.num() + 1) as nat) + " days)"@
}

fn route_unseen_text(w: &EventWindow) -> (r: String)
    requires
        w.start.num() <= w.end.num(),
    ensures
        r@ == route_unseen_reason(*w),
{
    String::from_str("no flow observations found for route in window '").concat(w.name.as_str()).concat(
        "' (0 of ",
    ).concat(count_text(inclusive_day_count(w)).as_str()).concat(" days)")
}

/// One flow window of one route: a gap when the window holds no rows;
/// otherwise the window's summary, and a gap when days are missing.
pub fn flow_window(
    route: &Route,
    series: &Vec<DirectionalFlowObservation>,
    window: &EventWindow,
    denominator: Option<Dec>,
    boundary: &mut EvidenceBoundary,
    summaries: &mut Vec<FlowSeriesSummary>,
) -> (r: Result<(), AnalyzeError>)
    requires
        window.start.num() <= window.end.num(),
        series@.len() < 0xffff_ffff,
    ensures
        final(boundary).assumptions@ == old(boundary).assumptions@,
        ({
            let s = series@.filter(obs_in(*window));
            let sorted = sorted_flows(s);
            &&& s.len() == 0 ==> {
                &&& r is Ok
                &&& final(summaries)@ == old(summaries)@
                &&& final(boundary).missing@.len() == old(boundary).missing@.len() + 1
                &&& final(boundary).missing@.drop_last() == old(boundary).missing@
                &&& detected_gap(
                    final(boundary).missing@.last(),
                    MissingKind::RouteAttribution,
                    window_scope(route.id@, *window),
                    empty_window_reason("flow"@, *window),
                )
            }
            &&& s.len() > 0 ==> (r is Ok <==> (flow_checks_pass(sorted, denominator) && flow_fits(
                sorted,
                denominator,
            )))
            &&& (s.len() > 0 && r is Ok) ==> {
                &&& final(summaries)@.len() == old(summaries)@.len() + 1
                &&& final(summaries)@.drop_last() == old(summaries)@
                &&& flow_summary_of(final(summaries)@.last(), sorted, *window, denominator)
                &&& final(summaries)@.last().observed_days < final(summaries)@.last().window_days
                    ==> {
                    &&& final(boundary).missing@.len() == old(boundary).missing@.len() + 1
                    &&& final(boundary).missing@.drop_last() == old(boundary).missing@
                    &&& detected_gap(
                        final(boundary).missing@.last(),
                        MissingKind::RouteAttribution,
                        window_scope(route.id@, *window),
                        partial_window_reason(
                            (final(summaries)@.last().window_days
                                - final(summaries)@.last().observed_days) as nat,
                            final(summaries)@.last().window_days as nat,
                            *window,
                        ),
                    )
                }
                &&& final(summaries)@.last().observed_days >= final(summaries)@.last().window_days
                    ==> final(boundary).missing@ == old(boundary).missing@
            }
            &&& r is Err ==> (r matches Err(AnalyzeError::Flow(_)) && final(summaries)@ == old(
                summaries)@ && final(boundary).missing@ == old(boundary).missing@)

            &&& r matches Err(AnalyzeError::Flow(e)) ==> flow_error_is(e, sorted, denominator)
        }),
{
    let in_window = obs_in_window(series, window);
    if in_window.len() == 0 {
        let gap = CoverageGap::new(
            MissingKind::RouteAttribution,
            window_scope_text(&route.id, window),
            empty_window_text("flow", window),
        );
        boundary.push_detected(gap);
        return Ok(());
    }
    proof {
        series@.lemma_filter_len(obs_in(*window));
    }
    let summary = match account_directional_flows(in_window, window, denominator) {
        Ok(s) => s,
        Err(e) => {
            return Err(AnalyzeError::Flow(e));
        },
    };
    if summary.observed_days < summary.window_days {
        let gap = CoverageGap::new(
            MissingKind::RouteAttribution,
            window_scope_text(&route.id, window),
            partial_window_text(summary.window_days - summary.observed_days, summary.window_days, window),
        );
        boundary.push_detected(gap);
    }
    summaries.push(summary);
    Ok(())
}

/// Whether day `n` lies in some declared window, whatever its use.
pub open spec fn in_declared_window(ws: Seq<EventWindow>, n: int) -> bool {
    exists|w: int| 0 <= w < ws.len() && window_has(#[trigger] ws[w], n)
}

fn in_any_window(ws: &Vec<EventWindow>, d: Day) -> (r: bool)
    ensures
        r == in_declared_window(ws@, d.num()),
{
    let mut w: usize = 0;
    while w < ws.len()
        invariant
            w <= ws@.len(),
            forall|k: int| 0 <= k < w ==> !window_has(#[trigger] ws@[k], d.num()),
        decreases ws.len() - w,
    {
        if ws[w].contains(d) {
            return true;
        }
        w += 1;
    }
    false
}

/// The day numbers of `days` are strictly increasing.
pub open spec fn days_increasing(days: Seq<Day>) -> bool {
    forall|i: int, j: int| 0 <= i < j < days.len() ==> (#[trigger] days[i]).num() < (#[trigger] days[j]).num()
}

/// The day numbers of `days`.
pub open spec fn day_numbers(days: Seq<Day>) -> Set<int> {
    days.map_values(|d: Day| d.num()).to_set()
}

fn insert_day(v: &mut Vec<Day>, d: Day)
    requires
        days_increasing(old(v)@),
    ensures
        days_increasing(final(v)@),
        day_numbers(final(v)@) == day_numbers(old(v)@).insert(d.num()),
{
    let ghost before = v@;
    let mut i: usize = 0;
    while i < v.len() && v[i].number() < d.number()
        invariant
            i <= v@.len(),
            v@ == before,
            days_increasing(before),
            forall|j: int| 0 <= j < i ==> (#[trigger] before[j]).num() < d.num(),
        decreases v.len() - i,
    {
        i += 1;
    }
    if i < v.len() && v[i].number() == d.number() {
        proof {
            assert(day_numbers(before).insert(d.num()) =~= day_numbers(before)) by {
                assert(before.map_values(|x: Day| x.num())[i as int] == d.num());
            }
        }
        return;
    }
    v.insert(i, d);
    proof {
        let after = v@;
        assert(after =~= before.insert(i as int, d));
        assert forall|a: int, b: int| 0 <= a < b < after.len() implies (#[trigger] after[a]).num()
            < (#[trigger] after[b]).num() by {
            if a < i && b > i {
                assert(after[b] == before[b - 1]);
            } else if a == i && b > i {
                assert(after[b] == before[b - 1]);
                assert(before[i as int].num() > d.num());
                if b - 1 > i {
                    assert(before[i as int].num() < before[b - 1].num());
                }
            } else if a > i {
                assert(after[a] == before[a - 1]);
                assert(after[b] == before[b - 1]);
            }
        }
        let am = after.map_values(|x: Day| x.num());
        let bm = before.map_values(|x: Day| x.num());
        assert(am.to_set() =~= bm.to_set().insert(d.num())) by {
            assert forall|n: int| #[trigger] am.to_set().contains(n) <==> bm.to_set().insert(d.num()).contains(n) by {
                if am.to_set().contains(n) {
                    let k = choose|k: int| 0 <= k < am.len() && am[k] == n;
                    if k < i {
                        assert(bm[k] == n);
                    } else if k > i {
                        assert(bm[k - 1] == n);
                    }
                }
                if bm.to_set().contains(n) {
                    let k = choose|k: int| 0 <= k < bm.len() && bm[k] == n;
                    if k < i {
                        assert(am[k] == n);
                    } else {
                        assert(am[k + 1] == n);
                    }
                }
                if n == d.num() {
                    assert(am[i as int] == n);
                }
            }
        }
    }
}

/// The days of `series` that lie in no declared window.
pub open spec fn outside_set(series: Seq<DirectionalFlowObservation>, ws: Seq<EventWindow>) -> Set<int> {
    Set::new(
        |n: int|
            exists|i: int|
                0 <= i < series.len() && (#[trigger] series[i]).day.num() == n && !in_declared_window(
                    ws,
                    n,
                ),
    )
}

/// The days of `series` outside every declared window, distinct and increasing.
pub fn outside_days(series: &Vec<DirectionalFlowObservation>, ws: &Vec<EventWindow>) -> (r: Vec<Day>)
    ensures
        days_increasing(r@),
        day_numbers(r@) == outside_set(series@, ws@),
{
    let mut out: Vec<Day> = Vec::new();
    let mut i: usize = 0;
    proof {
        assert(day_numbers(out@) =~= outside_set(series@.take(0), ws@));
    }
    while i < series.len()
        invariant
            i <= series@.len(),
            days_increasing(out@),
            day_numbers(out@) == outside_set(series@.take(i as int), ws@),
        decreases series.len() - i,
    {
        let d = series[i].day;
        let inside = in_any_window(ws, d);
        proof {
            let t = series@.take(i as int);
            let t1 = series@.take(i + 1);
            assert(t1 == t.push(series@[i as int]));
            let want = if inside {
                outside_set(t, ws@)
            } else {
                outside_set(t, ws@).insert(d.num())
            };
            assert(outside_set(t1, ws@) =~= want) by {
                assert forall|n: int| #[trigger] outside_set(t1, ws@).contains(n) implies want.contains(n) by {
                    let j = choose|j: int|
                        0 <= j < t1.len() && (#[trigger] t1[j]).day.num() == n && !in_declared_window(
                            ws@,
                            n,
                        );
                    if j < i {
                        assert(t[j] == t1[j]);
                    }
                }
                assert forall|n: int| #[trigger] want.contains(n) implies outside_set(t1, ws@).contains(n) by {
                    if !inside && n == d.num() {
                        assert(t1[i as int] == series@[i as int]);
                    } else {
                        let j = choose|j: int|
                            0 <= j < t.len() && (#[trigger] t[j]).day.num() == n && !in_declared_window(
                                ws@,
                                n,
                            );
                        assert(t1[j] == t[j]);
                    }
                }
            }
        }
        if !inside {
            insert_day(&mut out, d);
        }
        i += 1;
    }
    proof {
        assert(series@.take(series@.len() as int) == series@);
    }
    out
}

/// Date texts of `days`, separated by `, `.
pub open spec fn day_list(days: Seq<Day>) -> Seq<char>
    decreases days.len(),
{
    if days.len() == 0 {
        Seq::empty()
    } else if days.len() == 1 {
        crate::day::date_text(days[0].num())
    } else {
        day_list(days.drop_last()) + ", "@ + crate::day::date_text(days.last().num())
    }
}

/// The reason recorded for a route's days outside every declared window: their
/// count and the first five of them.
pub open spec fn outside_reason(days: Seq<Day>) -> Seq<char> {
    crate::text::decimal_digits(days.len()) + " observation day(s) outside all declared windows (e.g. "@
        + day_list(days.take(if days.len() < 5 { days.len() as int } else { 5 })) + ")"@
}

fn outside_text(days: &Vec<Day>) -> (r: String)
    ensures
        r@ == outside_reason(days@),
{
    let mut sample = String::new();
    let n: usize = if days.len() < 5 {
        days.len()
    } else {
        5
    };
    let mut i: usize = 0;
    while i < n
        invariant
            i <= n <= days@.len(),
            n == if days@.len() < 5 {
                days@.len()
            } else {
                5
            },
            sample@ == day_list(days@.take(i as int)),
        decreases n - i,
    {
        proof {
            assert(days@.take(i + 1).drop_last() == days@.take(i as int));
        }
        if i == 0 {
            sample = days[i].to_text();
        } else {
            sample = sample.concat(", ").concat(days[i].to_text().as_str());
        }
        i += 1;
    }
    proof {
        assert(i == n);
    }
    count_text(days.len()).concat(" observation day(s) outside all declared windows (e.g. ").concat(
        sample.as_str(),
    ).concat(")")
}

/// The route ids among the rows that no route declares.
pub open spec fn undeclared_route_ids(rows: Seq<RawDailyFlow>, routes: Seq<Route>) -> Set<Seq<char>> {
    Set::new(
        |id: Seq<char>|
            exists|i: int|
                0 <= i < rows.len() && (#[trigger] rows[i]).route_id@ == id && !route_id_before(
                    routes,
                    routes.len() as int,
                    id,
                ),
    )
}

fn sorted_undeclared_ids(rows: &Vec<RawDailyFlow>, routes: &Vec<Route>) -> (r: Vec<String>)
    ensures
        strictly_sorted(r@.map_values(|x: String| x@)),
        r@.map_values(|x: String| x@).to_set() == undeclared_route_ids(rows@, routes@),
{
    let mut out: Vec<String> = Vec::new();
    let mut i: usize = 0;
    proof {
        assert(out@.map_values(|x: String| x@).to_set() =~= undeclared_route_ids(
            rows@.take(0),
            routes@,
        ));
    }
    while i < rows.len()
        invariant
            i <= rows@.len(),
            strictly_sorted(out@.map_values(|x: String| x@)),
            out@.map_values(|x: String| x@).to_set() == undeclared_route_ids(
                rows@.take(i as int),
                routes@,
            ),
        decreases rows.len() - i,
    {
        let id = &rows[i].route_id;
        let known = find_route_id(routes, routes.len(), id);
        proof {
            let t = rows@.take(i as int);
            let t1 = rows@.take(i + 1);
            assert(t1 == t.push(rows@[i as int]));
            let want = if known {
                undeclared_route_ids(t, routes@)
            } else {
                undeclared_route_ids(t, routes@).insert(id@)
            };
            assert(undeclared_route_ids(t1, routes@) =~= want) by {
                assert forall|k: Seq<char>| #[trigger] undeclared_route_ids(t1, routes@).contains(k) implies want.contains(k) by {
                    let j = choose|j: int|
                        0 <= j < t1.len() && (#[trigger] t1[j]).route_id@ == k && !route_id_before(
                            routes@,
                            routes@.len() as int,
                            k,
                        );
                    if j < i {
                        assert(t[j] == t1[j]);
                    }
                }
                assert forall|k: Seq<char>| #[trigger] want.contains(k) implies undeclared_route_ids(t1, routes@).contains(k) by {
                    if !known && k == id@ {
                        assert(t1[i as int] == rows@[i as int]);
                    } else {
                        let j = choose|j: int|
                            0 <= j < t.len() && (#[trigger] t[j]).route_id@ == k && !route_id_before(
                                routes@,
                                routes@.len() as int,
                                k,
                            );
                        assert(t1[j] == t[j]);
                    }
                }
            }
        }
        if !known {
            insert_sorted(&mut out, id);
        }
        i += 1;
    }
    proof {
        assert(rows@.take(rows@.len() as int) == rows@);
    }
    out
}

/// `x` is the summary of route `r` in window `w` of the project.
pub open spec fn flow_summary_for(
    cfg: ProjectConfig,
    rows: Seq<RawDailyFlow>,
    supply: Option<Seq<(AssetKey, Day, Dec)>>,
    x: FlowSeriesSummary,
    r: int,
    w: int,
) -> bool {
    let ws = cfg.windows@;
    let route = cfg.routes@[r];
    &&& 0 <= r < cfg.routes@.len()
    &&& 0 <= w < ws.len()
    &&& window_for_flow(ws[w])
    &&& route_series(rows, stamp_route(cfg.routes@, r)).filter(obs_in(ws[w])).len() > 0
    &&& flow_summary_of(
        x,
        sorted_flows(route_series(rows, stamp_route(cfg.routes@, r)).filter(obs_in(ws[w]))),
        ws[w],
        denominator_of(route, supply),
    )
}

/// Whether window `w` holds rows of route `r`, the first route with its id.
pub open spec fn route_has_rows_in(cfg: ProjectConfig, rows: Seq<RawDailyFlow>, r: int, w: int) -> bool {
    &&& 0 <= r < cfg.routes@.len()
    &&& !route_id_before(cfg.routes@, r, cfg.routes@[r].id@)
    &&& 0 <= w < cfg.windows@.len()
    &&& window_for_flow(cfg.windows@[w])
    &&& route_series(rows, stamp_route(cfg.routes@, r)).filter(obs_in(cfg.windows@[w])).len() > 0
}

/// The summaries `data` are those of the routes (in declared order) and the
/// flow windows (in declared order) that hold rows: `origin[t]` names the
/// route and the window of `data[t]`.
pub open spec fn flow_data(
    cfg: ProjectConfig,
    rows: Seq<RawDailyFlow>,
    supply: Option<Seq<(AssetKey, Day, Dec)>>,
    origin: Seq<(int, int)>,
    data: Seq<FlowSeriesSummary>,
) -> bool {
    &&& origin.len() == data.len()
    &&& forall|t: int|
        0 <= t < origin.len() ==> flow_summary_for(
            cfg,
            rows,
            supply,
            data[t],
            (#[trigger] origin[t]).0,
            origin[t].1,
        )
    &&& forall|a: int, b: int|
        0 <= a < b < origin.len() ==> (#[trigger] origin[a]).0 < (#[trigger] origin[b]).0 || (
        origin[a].0 == origin[b].0 && origin[a].1 < origin[b].1)
    &&& forall|r: int, w: int|
        #[trigger] route_has_rows_in(cfg, rows, r, w) ==> exists|t: int|
            0 <= t < origin.len() && #[trigger] origin[t] == (r, w)
}

/// Missing flow stays missing: every summary of the directional-flow section
/// comes from at least one observed day of its route in its window (none is
/// filled in for a window without rows), and each carries the note that flow
/// accounting is no migration label.
pub proof fn law_flow_summaries_are_observed(
    cfg: ProjectConfig,
    rows: Seq<RawDailyFlow>,
    supply: Option<Seq<(AssetKey, Day, Dec)>>,
    origin: Seq<(int, int)>,
    data: Seq<FlowSeriesSummary>,
)
    requires
        flow_data(cfg, rows, supply, origin, data),
    ensures
        forall|t: int|
            0 <= t < data.len() ==> (#[trigger] data[t]).observed_days > 0
                && data[t].interpretation_boundary@ == crate::flow::flow_boundary_note(),
{
    assert forall|t: int| 0 <= t < data.len() implies (#[trigger] data[t]).observed_days > 0
        && data[t].interpretation_boundary@ == crate::flow::flow_boundary_note() by {
        let r = origin[t].0;
        let w = origin[t].1;
        assert(flow_summary_for(cfg, rows, supply, data[t], r, w));
        let s = route_series(rows, stamp_route(cfg.routes@, r)).filter(obs_in(cfg.windows@[w]));
        crate::sort::lemma_stable_sort(s);
    }
}

/// The kinds of gap the flow section records.
pub open spec fn flow_gap_kind(g: CoverageGap) -> bool {
    (g.kind == MissingKind::RouteAttribution || g.kind == MissingKind::Supply) && g.source
        == GapSource::Detected
}

pub open spec fn no_routes_flow_reason() -> Seq<char> {
    "no [[routes]] declared; directional flow not identified (not zero)"@
}

pub open spec fn no_flows_input_reason() -> Seq<char> {
    "routes declared but inputs.flows missing"@
}

pub open spec fn no_flow_rows_reason() -> Seq<char> {
    "routes declared but no in-window flow observations were accounted"@
}

pub open spec fn undeclared_route_reason() -> Seq<char> {
    "flow observations reference a route_id not declared in project.toml"@
}

/// A gap the flow section records, as plain values: its kind, scope and
/// reason; or, for the days of a route outside every declared window, the
/// route's observations, from which the reason is made.
pub type FlowNote = (MissingKind, Seq<char>, Seq<char>, Option<Seq<DirectionalFlowObservation>>);

/// A note with a given kind, scope and reason.
pub open spec fn fixed_note(kind: MissingKind, scope: Seq<char>, reason: Seq<char>) -> FlowNote {
    (kind, scope, reason, None)
}

/// Whether gap `g` is the one note `n` describes.
pub open spec fn note_matches(g: CoverageGap, n: FlowNote, ws: Seq<EventWindow>) -> bool {
    match n.3 {
        None => detected_gap(g, n.0, n.1, n.2),
        Some(series) => {
            &&& g.kind == MissingKind::RouteAttribution
            &&& g.scope@ == n.1
            &&& g.source == GapSource::Detected
            &&& exists|d: Seq<Day>|
                days_increasing(d) && day_numbers(d) == outside_set(series, ws) && #[trigger] outside_reason(d)
                    == g.reason@
        },
    }
}

/// Whether the gaps `gs` are those the notes describe, in order.
pub open spec fn notes_match(gs: Seq<CoverageGap>, notes: Seq<FlowNote>, ws: Seq<EventWindow>) -> bool {
    &&& gs.len() == notes.len()
    &&& forall|i: int| 0 <= i < gs.len() ==> note_matches(#[trigger] gs[i], notes[i], ws)
}

proof fn lemma_notes_push(gs: Seq<CoverageGap>, notes: Seq<FlowNote>, ws: Seq<EventWindow>, g: CoverageGap, n: FlowNote)
    requires
        notes_match(gs, notes, ws),
        note_matches(g, n, ws),
    ensures
        notes_match(gs.push(g), notes.push(n), ws),
{
    assert forall|i: int| 0 <= i < gs.push(g).len() implies note_matches(#[trigger] gs.push(g)[i], notes.push(n)[i], ws) by {
        if i < gs.len() {
            assert(gs.push(g)[i] == gs[i]);
            assert(notes.push(n)[i] == notes[i]);
        }
    }
}

/// The observations the section accounts for route `k`: none when an
/// earlier route has the same id; otherwise the rows of its id, stamped by
/// the last route with that id.
pub open spec fn accounted_series(cfg: ProjectConfig, rows: Seq<RawDailyFlow>, k: int) -> Seq<DirectionalFlowObservation> {
    let route = cfg.routes@[k];
    if route_id_before(cfg.routes@, k, route.id@) {
        Seq::empty()
    } else {
        route_series(rows, stamp_route(cfg.routes@, k))
    }
}

/// The supply gap of a route whose denominator cannot be found.
pub open spec fn denominator_notes(route: Route, supply: Option<Seq<(AssetKey, Day, Dec)>>) -> Seq<FlowNote> {
    match route.measurement.denominator {
        Some(DenominatorPolicy::SupplySnapshot { asset, as_of }) => if denominator_of(route, supply) is None {
            seq![
                fixed_note(
                    MissingKind::Supply,
                    denominator_scope(route),
                    if supply is None {
                        "denominator requested but inputs.supply missing"@
                    } else {
                        missing_snapshot_message(asset.0@, as_of)
                    },
                ),
            ]
        } else {
            Seq::empty()
        },
        None => Seq::empty(),
    }
}

/// The gaps of a route without rows, one per flow window among the first `n`.
pub open spec fn unseen_notes(route: Route, ws: Seq<EventWindow>, n: int) -> Seq<FlowNote>
    decreases n,
{
    if n <= 0 {
        Seq::empty()
    } else {
        unseen_notes(route, ws, n - 1) + if window_for_flow(ws[n - 1]) {
            seq![
                fixed_note(
                    MissingKind::RouteAttribution,
                    window_scope(route.id@, ws[n - 1]),
                    route_unseen_reason(ws[n - 1]),
                ),
            ]
        } else {
            Seq::empty()
        }
    }
}

/// The gap of a route in one flow window: none rows, or some days missing.
pub open spec fn window_note(route: Route, series: Seq<DirectionalFlowObservation>, w: EventWindow) -> Seq<FlowNote> {
    let s = series.filter(obs_in(w));
    let days = w.end.num() - w.start.num() + 1;
    if s.len() == 0 {
        seq![
            fixed_note(
                MissingKind::RouteAttribution,
                window_scope(route.id@, w),
                empty_window_reason("flow"@, w),
            ),
        ]
    } else if s.len() < days {
        seq![
            fixed_note(
                MissingKind::RouteAttribution,
                window_scope(route.id@, w),
                partial_window_reason((days - s.len()) as nat, days as nat, w),
            ),
        ]
    } else {
        Seq::empty()
    }
}

/// The gaps of a route with rows in the flow windows among the first `n`.
pub open spec fn window_notes(route: Route, series: Seq<DirectionalFlowObservation>, ws: Seq<EventWindow>, n: int) -> Seq<FlowNote>
    decreases n,
{
    if n <= 0 {
        Seq::empty()
    } else {
        window_notes(route, series, ws, n - 1) + if window_for_flow(ws[n - 1]) {
            window_note(route, series, ws[n - 1])
        } else {
            Seq::empty()
        }
    }
}

/// Whether some observation of `series` lies outside every declared window.
pub open spec fn has_outside_day(series: Seq<DirectionalFlowObservation>, ws: Seq<EventWindow>) -> bool {
    exists|i: int| 0 <= i < series.len() && !in_declared_window(ws, #[trigger] series[i].day.num())
}

/// The gap of a route with observations outside every declared window.
pub open spec fn outside_notes(route: Route, series: Seq<DirectionalFlowObservation>, ws: Seq<EventWindow>) -> Seq<FlowNote> {
    if has_outside_day(series, ws) {
        seq![(MissingKind::RouteAttribution, route.id@, Seq::<char>::empty(), Some(series))]
    } else {
        Seq::empty()
    }
}

/// The gaps route `k` records, in order.
pub open spec fn route_notes(
    cfg: ProjectConfig,
    rows: Seq<RawDailyFlow>,
    supply: Option<Seq<(AssetKey, Day, Dec)>>,
    k: int,
) -> Seq<FlowNote> {
    let route = cfg.routes@[k];
    let ws = cfg.windows@;
    let series = accounted_series(cfg, rows, k);
    denominator_notes(route, supply) + if series.len() == 0 {
        unseen_notes(route, ws, ws.len() as int)
    } else {
        window_notes(route, series, ws, ws.len() as int) + outside_notes(route, series, ws)
    }
}

/// The gaps the first `n` routes record, in order.
pub open spec fn flow_notes(
    cfg: ProjectConfig,
    rows: Seq<RawDailyFlow>,
    supply: Option<Seq<(AssetKey, Day, Dec)>>,
    n: int,
) -> Seq<FlowNote>
    decreases n,
{
    if n <= 0 {
        Seq::empty()
    } else {
        flow_notes(cfg, rows, supply, n - 1) + route_notes(cfg, rows, supply, n - 1)
    }
}

/// Whether accounting `series` in flow window `w` fails.
pub open spec fn window_fails(series: Seq<DirectionalFlowObservation>, w: EventWindow, den: Option<Dec>) -> bool {
    let s = series.filter(obs_in(w));
    &&& window_for_flow(w)
    &&& s.len() > 0
    &&& !(flow_checks_pass(sorted_flows(s), den) && flow_fits(sorted_flows(s), den))
}

/// The rows of route `k` in window `w`, sorted by day.
pub open spec fn route_window_series(cfg: ProjectConfig, rows: Seq<RawDailyFlow>, k: int, w: int) -> Seq<
    DirectionalFlowObservation,
> {
    sorted_flows(accounted_series(cfg, rows, k).filter(obs_in(cfg.windows@[w])))
}

/// Whether accounting route `k` in window `w` is the first accounting that
/// fails, the routes taken in declared order and the windows of each in
/// declared order.
pub open spec fn first_flow_failure(
    cfg: ProjectConfig,
    rows: Seq<RawDailyFlow>,
    supply: Option<Seq<(AssetKey, Day, Dec)>>,
    k: int,
    w: int,
) -> bool {
    let ws = cfg.windows@;
    &&& 0 <= k < cfg.routes@.len()
    &&& 0 <= w < ws.len()
    &&& window_fails(accounted_series(cfg, rows, k), ws[w], denominator_of(cfg.routes@[k], supply))
    &&& forall|k2: int, w2: int|
        0 <= k2 < k && 0 <= w2 < ws.len() ==> !#[trigger] window_fails(
            accounted_series(cfg, rows, k2),
            ws[w2],
            denominator_of(cfg.routes@[k2], supply),
        )
    &&& forall|w2: int|
        0 <= w2 < w ==> !#[trigger] window_fails(
            accounted_series(cfg, rows, k),
            ws[w2],
            denominator_of(cfg.routes@[k], supply),
        )
}

/// Whether some route's accounting in some flow window fails.
pub open spec fn flow_fails(
    cfg: ProjectConfig,
    rows: Seq<RawDailyFlow>,
    supply: Option<Seq<(AssetKey, Day, Dec)>>,
) -> bool {
    exists|k: int, w: int|
        0 <= k < cfg.routes@.len() && 0 <= w < cfg.windows@.len() && #[trigger] window_fails(
            accounted_series(cfg, rows, k),
            cfg.windows@[w],
            denominator_of(cfg.routes@[k], supply),
        )
}

/// The directional-flow section of a project over the rows read from its
/// flow input and, when some route has a denominator, its supply input.
/// Each route is accounted in each flow window that holds its rows; windows
/// without rows, missing days, days outside every flow window, missing
/// denominators and rows of undeclared routes are recorded as coverage gaps.
#[verifier::rlimit(60)]
pub fn compute_directional_flow(
    cfg: &ProjectConfig,
    rows: &Vec<RawDailyFlow>,
    supply: &Option<Vec<(AssetKey, Day, Dec)>>,
    boundary: &mut EvidenceBoundary,
) -> (r: Result<EvidenceSection<Vec<FlowSeriesSummary>>, AnalyzeError>)
    requires
        forall|i: int|
            0 <= i < cfg.windows@.len() ==> (#[trigger] cfg.windows@[i]).start.num()
                <= cfg.windows@[i].end.num(),
        rows@.len() < 0xffff_ffff,
    ensures
        final(boundary).assumptions@ == old(boundary).assumptions@,
        cfg.routes@.len() == 0 ==> (r matches Ok(EvidenceSection::NotDeclared { reason }) && reason@
            == no_routes_flow_reason() && final(boundary).missing@ == old(boundary).missing@),
        cfg.routes@.len() > 0 && cfg.inputs.flows is None ==> (r matches Ok(
            EvidenceSection::NotObservable { reason },
        ) && reason@ == no_flows_input_reason() && final(boundary).missing@ == old(boundary).missing@),
        cfg.routes@.len() > 0 && cfg.inputs.flows is Some ==> {
            let notes = flow_notes(*cfg, rows@, supply_view(*supply), cfg.routes@.len() as int);
            let n0 = old(boundary).missing@.len() as int;
            &&& (r is Err ==> (r matches Err(AnalyzeError::Flow(_))))
            &&& (r is Ok <==> !flow_fails(*cfg, rows@, supply_view(*supply)))
            &&& r matches Err(AnalyzeError::Flow(e)) ==> exists|k: int, w: int|
                #[trigger] first_flow_failure(*cfg, rows@, supply_view(*supply), k, w) && flow_error_is(
                    e,
                    route_window_series(*cfg, rows@, k, w),
                    denominator_of(cfg.routes@[k], supply_view(*supply)),
                )
            &&& (r is Ok ==> notes_match(
                final(boundary).missing@.subrange(n0, n0 + notes.len()),
                notes,
                cfg.windows@,
            ))
            &&& old(boundary).missing@.len() <= final(boundary).missing@.len()
            &&& final(boundary).missing@.take(old(boundary).missing@.len() as int) == old(boundary).missing@
            &&& (r is Ok ==> forall|g: int|
                old(boundary).missing@.len() <= g < final(boundary).missing@.len() ==> flow_gap_kind(
                    #[trigger] final(boundary).missing@[g],
                ))
            &&& r is Ok ==> exists|extras: Seq<Seq<char>>|
                #[trigger] strictly_sorted(extras) && extras.to_set() == undeclared_route_ids(
                    rows@,
                    cfg.routes@,
                ) && n0 + notes.len() + extras.len() == final(boundary).missing@.len()
                    && (forall|g: int|
                    0 <= g < extras.len() ==> detected_gap(
                        #[trigger] final(boundary).missing@[final(boundary).missing@.len()
                            - extras.len() + g],
                        MissingKind::RouteAttribution,
                        extras[g],
                        undeclared_route_reason(),
                    ))
            &&& r is Ok ==> exists|origin: Seq<(int, int)>|
                #[trigger] flow_data(*cfg, rows@, supply_view(*supply), origin, section_data(r))
            &&& (r is Ok ==> ((r matches Ok(EvidenceSection::Available { data }) && data@.len() > 0)
                || (r matches Ok(EvidenceSection::NotObservable { reason }) && reason@
                == no_flow_rows_reason())))
        },
{
    if cfg.routes.len() == 0 {
        return Ok(
            EvidenceSection::not_declared(
                String::from_str("no [[routes]] declared; directional flow not identified (not zero)"),
            ),
        );
    }
    if cfg.inputs.flows.is_none() {
        return Ok(
            EvidenceSection::not_observable(String::from_str("routes declared but inputs.flows missing")),
        );
    }
    let ghost old_len = boundary.missing@.len();
    let ghost old_missing = boundary.missing@;
    let ghost sv = supply_view(*supply);
    let ghost ws = cfg.windows@;
    proof {
        assert(boundary.missing@.subrange(old_len as int, old_len as int) =~= Seq::<CoverageGap>::empty());
    }
    let extras = sorted_undeclared_ids(rows, &cfg.routes);
    let mut summaries: Vec<FlowSeriesSummary> = Vec::new();
    let ghost mut origin: Seq<(int, int)> = Seq::empty();
    let mut ri: usize = 0;
    while ri < cfg.routes.len()
        invariant
            ri <= cfg.routes@.len(),
            rows@.len() < 0xffff_ffff,
            cfg.routes@.len() > 0,
            cfg.inputs.flows is Some,
            forall|i: int|
                0 <= i < cfg.windows@.len() ==> (#[trigger] cfg.windows@[i]).start.num()
                    <= cfg.windows@[i].end.num(),
            boundary.assumptions@ == old(boundary).assumptions@,
            old_len == old(boundary).missing@.len(),
            old_missing == old(boundary).missing@,
            old_len <= boundary.missing@.len(),
            boundary.missing@.take(old_len as int) == old_missing,
            forall|g: int|
                old_len <= g < boundary.missing@.len() ==> flow_gap_kind(#[trigger] boundary.missing@[g]),
            origin.len() == summaries@.len(),
            forall|t: int|
                0 <= t < origin.len() ==> (#[trigger] origin[t]).0 < ri && flow_summary_for(
                    *cfg,
                    rows@,
                    supply_view(*supply),
                    summaries@[t],
                    origin[t].0,
                    origin[t].1,
                ),
            forall|a: int, c: int|
                0 <= a < c < origin.len() ==> (#[trigger] origin[a]).0 < (#[trigger] origin[c]).0
                    || (origin[a].0 == origin[c].0 && origin[a].1 < origin[c].1),
            forall|k: int, w: int|
                0 <= k < ri && #[trigger] route_has_rows_in(*cfg, rows@, k, w) ==> exists|t: int|
                    0 <= t < origin.len() && #[trigger] origin[t] == (k, w),
            sv == supply_view(*supply),
            ws == cfg.windows@,
            boundary.missing@.len() == old_len + flow_notes(*cfg, rows@, sv, ri as int).len(),
            notes_match(
                boundary.missing@.subrange(old_len as int, boundary.missing@.len() as int),
                flow_notes(*cfg, rows@, sv, ri as int),
                ws,
            ),
            forall|k: int, w: int|
                0 <= k < ri && 0 <= w < ws.len() ==> !#[trigger] window_fails(
                    accounted_series(*cfg, rows@, k),
                    ws[w],
                    denominator_of(cfg.routes@[k], sv),
                ),
        decreases cfg.routes.len() - ri,
    {
        let route = &cfg.routes[ri];
        let ghost before_denominator = boundary.missing@;
        let denominator = resolve_route_denominator(route, supply, boundary);
        let ghost fnotes = flow_notes(*cfg, rows@, sv, ri as int);
        let ghost dn = denominator_notes(*route, sv);
        let ghost pre = fnotes + dn;
        proof {
            let sub0 = before_denominator.subrange(old_len as int, before_denominator.len() as int);
            if route.measurement.denominator is Some && denominator is None {
                let g = boundary.missing@.last();
                assert(dn == seq![dn[0]]);
                assert(note_matches(g, dn[0], ws));
                lemma_notes_push(sub0, fnotes, ws, g, dn[0]);
                assert(boundary.missing@.subrange(old_len as int, boundary.missing@.len() as int) =~= sub0.push(g));
                assert(fnotes.push(dn[0]) =~= pre);
            } else {
                assert(dn =~= Seq::<FlowNote>::empty());
                assert(pre =~= fnotes);
            }
            assert(boundary.missing@.take(old_len as int) =~= before_denominator.take(old_len as int));
            assert forall|g: int|
                old_len <= g < boundary.missing@.len() implies flow_gap_kind(#[trigger] boundary.missing@[g]) by {
                if g < before_denominator.len() {
                    assert(boundary.missing@[g] == before_denominator[g]);
                }
            }
        }
        let repeated = find_route_id(&cfg.routes, ri, &route.id);
        let series = if repeated {
            Vec::new()
        } else {
            let last = last_route_index(&cfg.routes, ri);
            series_for_route(rows, &cfg.routes[last])
        };
        proof {
            if !repeated {
                rows@.lemma_filter_len(of_route(route.id@));
            }
            assert(series@ == accounted_series(*cfg, rows@, ri as int));
        }
        if series.len() == 0 {
            let mut wi: usize = 0;
            while wi < cfg.windows.len()
                invariant
                    wi <= cfg.windows@.len(),
                    ws == cfg.windows@,
                    *route == cfg.routes@[ri as int],
                    boundary.missing@.len() == old_len + pre.len() + unseen_notes(*route, ws, wi as int).len(),
                    notes_match(
                        boundary.missing@.subrange(old_len as int, boundary.missing@.len() as int),
                        pre + unseen_notes(*route, ws, wi as int),
                        ws,
                    ),
                    forall|i: int|
                        0 <= i < cfg.windows@.len() ==> (#[trigger] cfg.windows@[i]).start.num()
                            <= cfg.windows@[i].end.num(),
                    boundary.assumptions@ == old(boundary).assumptions@,
                    old_len <= boundary.missing@.len(),
                    boundary.missing@.take(old_len as int) == old_missing,
                    forall|g: int|
                        old_len <= g < boundary.missing@.len() ==> flow_gap_kind(
                            #[trigger] boundary.missing@[g],
                        ),
                decreases cfg.windows.len() - wi,
            {
                let window = &cfg.windows[wi];
                if window.applies_to_flow() {
                    let ghost before = boundary.missing@;
                    boundary.push_detected(
                        CoverageGap::new(
                            MissingKind::RouteAttribution,
                            window_scope_text(&route.id, window),
                            route_unseen_text(window),
                        ),
                    );
                    proof {
                        assert(boundary.missing@.take(old_len as int) =~= before.take(old_len as int));
                        assert forall|g: int|
                            old_len <= g < boundary.missing@.len() implies flow_gap_kind(
                                #[trigger] boundary.missing@[g],
                            ) by {
                            if g < before.len() {
                                assert(boundary.missing@[g] == before[g]);
                            }
                        }
                        let note = fixed_note(
                            MissingKind::RouteAttribution,
                            window_scope(route.id@, *window),
                            route_unseen_reason(*window),
                        );
                        let sub0 = before.subrange(old_len as int, before.len() as int);
                        lemma_notes_push(sub0, pre + unseen_notes(*route, ws, wi as int), ws, boundary.missing@.last(), note);
                        assert(boundary.missing@.subrange(old_len as int, boundary.missing@.len() as int) =~= sub0.push(boundary.missing@.last()));
                        assert((pre + unseen_notes(*route, ws, wi as int)).push(note) =~= pre + unseen_notes(*route, ws, wi + 1));
                    }
                } else {
                    proof {
                        assert(unseen_notes(*route, ws, wi + 1) =~= unseen_notes(*route, ws, wi as int));
                    }
                }
                wi += 1;
            }
            proof {
                assert(flow_notes(*cfg, rows@, sv, ri + 1) =~= pre + unseen_notes(*route, ws, ws.len() as int));
                assert forall|k: int, w: int|
                    0 <= k < ri + 1 && 0 <= w < ws.len() implies !#[trigger] window_fails(
                        accounted_series(*cfg, rows@, k),
                        ws[w],
                        denominator_of(cfg.routes@[k], sv),
                    ) by {
                    if k == ri {
                        series@.lemma_filter_len(obs_in(ws[w]));
                    }
                }
                assert forall|w: int| #[trigger] route_has_rows_in(*cfg, rows@, ri as int, w) implies false by {
                    if !repeated {
                        assert(route_series(rows@, stamp_route(cfg.routes@, ri as int)).filter(obs_in(cfg.windows@[w])).len() <= route_series(rows@, stamp_route(cfg.routes@, ri as int)).len()) by {
                            route_series(rows@, stamp_route(cfg.routes@, ri as int)).lemma_filter_len(obs_in(cfg.windows@[w]));
                        }
                    }
                }
            }
            ri += 1;
            continue;
        }
        let mut wi: usize = 0;
        while wi < cfg.windows.len()
            invariant
                wi <= cfg.windows@.len(),
                ri < cfg.routes@.len(),
                *route == cfg.routes@[ri as int],
                !repeated,
                !route_id_before(cfg.routes@, ri as int, route.id@),
                series@ == route_series(rows@, stamp_route(cfg.routes@, ri as int)),
                series@.len() < 0xffff_ffff,
                denominator == denominator_of(*route, supply_view(*supply)),
                cfg.routes@.len() > 0,
                cfg.inputs.flows is Some,
                old_len == old(boundary).missing@.len(),
                old_missing == old(boundary).missing@,
                forall|i: int|
                    0 <= i < cfg.windows@.len() ==> (#[trigger] cfg.windows@[i]).start.num()
                        <= cfg.windows@[i].end.num(),
                boundary.assumptions@ == old(boundary).assumptions@,
                old_len <= boundary.missing@.len(),
                boundary.missing@.take(old_len as int) == old_missing,
                forall|g: int|
                    old_len <= g < boundary.missing@.len() ==> flow_gap_kind(
                        #[trigger] boundary.missing@[g],
                    ),
                origin.len() == summaries@.len(),
                forall|t: int|
                    0 <= t < origin.len() ==> (#[trigger] origin[t]).0 <= ri && flow_summary_for(
                        *cfg,
                        rows@,
                        supply_view(*supply),
                        summaries@[t],
                        origin[t].0,
                        origin[t].1,
                    ) && (origin[t].0 == ri ==> origin[t].1 < wi),
                forall|a: int, c: int|
                    0 <= a < c < origin.len() ==> (#[trigger] origin[a]).0 < (#[trigger] origin[c]).0
                        || (origin[a].0 == origin[c].0 && origin[a].1 < origin[c].1),
                forall|k: int, w: int|
                    0 <= k < ri && #[trigger] route_has_rows_in(*cfg, rows@, k, w) ==> exists|t: int|
                        0 <= t < origin.len() && #[trigger] origin[t] == (k, w),
                forall|w: int|
                    0 <= w < wi && #[trigger] route_has_rows_in(*cfg, rows@, ri as int, w)
                        ==> exists|t: int| 0 <= t < origin.len() && #[trigger] origin[t] == (ri as int, w),
                sv == supply_view(*supply),
                ws == cfg.windows@,
                series@ == accounted_series(*cfg, rows@, ri as int),
                pre == flow_notes(*cfg, rows@, sv, ri as int) + denominator_notes(*route, sv),
                boundary.missing@.len() == old_len + pre.len() + window_notes(*route, series@, ws, wi as int).len(),
                notes_match(
                    boundary.missing@.subrange(old_len as int, boundary.missing@.len() as int),
                    pre + window_notes(*route, series@, ws, wi as int),
                    ws,
                ),
                forall|k: int, w: int|
                    0 <= k < ri && 0 <= w < ws.len() ==> !#[trigger] window_fails(
                        accounted_series(*cfg, rows@, k),
                        ws[w],
                        denominator_of(cfg.routes@[k], sv),
                    ),
                forall|w: int| 0 <= w < wi ==> !#[trigger] window_fails(series@, ws[w], denominator),
            decreases cfg.windows.len() - wi,
        {
            let window = &cfg.windows[wi];
            if window.applies_to_flow() {
                let ghost before_missing = boundary.missing@;
                let ghost before_len = summaries@.len();
                let ghost s_in = series@.filter(obs_in(*window));
                proof {
                    crate::sort::lemma_stable_sort(s_in);
                }
                match flow_window(route, &series, window, denominator, boundary, &mut summaries) {
                    Ok(()) => {},
                    Err(e) => {
                        proof {
                            assert(boundary.missing@.take(old_len as int) =~= before_missing.take(
                                old_len as int,
                            ));
                            assert(window_fails(
                                accounted_series(*cfg, rows@, ri as int),
                                ws[wi as int],
                                denominator_of(cfg.routes@[ri as int], sv),
                            ));
                            assert(first_flow_failure(*cfg, rows@, sv, ri as int, wi as int));
                        }
                        return Err(e);
                    },
                }
                proof {
                    let wn = window_note(*route, series@, *window);
                    let sub0 = before_missing.subrange(old_len as int, before_missing.len() as int);
                    let acc = pre + window_notes(*route, series@, ws, wi as int);
                    assert(acc + wn =~= pre + window_notes(*route, series@, ws, wi + 1));
                    if boundary.missing@.len() > before_missing.len() {
                        assert(wn == seq![wn[0]]);
                        assert(note_matches(boundary.missing@.last(), wn[0], ws));
                        lemma_notes_push(sub0, acc, ws, boundary.missing@.last(), wn[0]);
                        assert(boundary.missing@.subrange(old_len as int, boundary.missing@.len() as int) =~= sub0.push(boundary.missing@.last()));
                        assert(acc.push(wn[0]) =~= acc + wn);
                    } else {
                        assert(wn =~= Seq::<FlowNote>::empty());
                        assert(acc + wn =~= acc);
                    }
                    assert(!window_fails(series@, ws[wi as int], denominator));
                }
                proof {
                    assert(boundary.missing@.take(old_len as int) =~= before_missing.take(
                        old_len as int,
                    ));
                    assert forall|g: int|
                        old_len <= g < boundary.missing@.len() implies flow_gap_kind(
                            #[trigger] boundary.missing@[g],
                        ) by {
                        if g < before_missing.len() {
                            assert(boundary.missing@[g] == before_missing[g]);
                        }
                    }
                    let old_origin = origin;
                    if summaries@.len() > before_len {
                        origin = origin.push((ri as int, wi as int));
                        assert(flow_summary_for(
                            *cfg,
                            rows@,
                            supply_view(*supply),
                            summaries@[origin.len() - 1],
                            ri as int,
                            wi as int,
                        ));
                    }
                    assert forall|t: int| 0 <= t < old_origin.len() implies origin[t] == old_origin[t] by {}
                    if route_has_rows_in(*cfg, rows@, ri as int, wi as int) {
                        assert(series@.filter(obs_in(*window)).len() > 0);
                        assert(origin[origin.len() - 1] == (ri as int, wi as int));
                    }
                }
            } else {
                proof {
                    assert(window_notes(*route, series@, ws, wi + 1) =~= window_notes(*route, series@, ws, wi as int));
                }
            }
            proof {
                assert forall|w: int|
                    0 <= w < wi + 1 && #[trigger] route_has_rows_in(*cfg, rows@, ri as int, w)
                        implies exists|t: int| 0 <= t < origin.len() && #[trigger] origin[t] == (ri as int, w) by {
                    if w == wi {
                        assert(origin[origin.len() - 1] == (ri as int, w));
                    }
                }
            }
            wi += 1;
        }
        let outside = outside_days(&series, &cfg.windows);
        let ghost before_outside = boundary.missing@;
        let ghost acc = pre + window_notes(*route, series@, ws, ws.len() as int);
        proof {
            let m = outside@.map_values(|d: Day| d.num());
            if outside.len() > 0 {
                assert(m[0] == outside@[0].num());
                assert(m.contains(m[0]));
                assert(day_numbers(outside@).contains(outside@[0].num()));
                assert(outside_set(series@, ws).contains(outside@[0].num()));
                assert(has_outside_day(series@, ws));
            } else if has_outside_day(series@, ws) {
                let i = choose|i: int| 0 <= i < series@.len() && !in_declared_window(ws, #[trigger] series@[i].day.num());
                assert(outside_set(series@, ws).contains(series@[i].day.num()));
                assert(day_numbers(outside@).contains(series@[i].day.num()));
                assert(m.contains(series@[i].day.num()));
                assert(false);
            }
        }
        if outside.len() > 0 {
            let ghost before = boundary.missing@;
            boundary.push_detected(
                CoverageGap::new(MissingKind::RouteAttribution, route.id.clone(), outside_text(&outside)),
            );
            proof {
                let note: FlowNote = (MissingKind::RouteAttribution, route.id@, Seq::<char>::empty(), Some(series@));
                let g = boundary.missing@.last();
                assert(outside_reason(outside@) == g.reason@);
                assert(note_matches(g, note, ws));
                let sub0 = before.subrange(old_len as int, before.len() as int);
                lemma_notes_push(sub0, acc, ws, g, note);
                assert(boundary.missing@.subrange(old_len as int, boundary.missing@.len() as int) =~= sub0.push(g));
                assert(acc.push(note) =~= acc + outside_notes(*route, series@, ws));
                assert(boundary.missing@.take(old_len as int) =~= before.take(old_len as int));
                assert forall|g: int|
                    old_len <= g < boundary.missing@.len() implies flow_gap_kind(
                        #[trigger] boundary.missing@[g],
                    ) by {
                    if g < before.len() {
                        assert(boundary.missing@[g] == before[g]);
                    }
                }
            }
        }
        proof {
            if outside.len() == 0 {
                assert(acc + outside_notes(*route, series@, ws) =~= acc);
            }
            assert(flow_notes(*cfg, rows@, sv, ri + 1) =~= acc + outside_notes(*route, series@, ws));
            assert forall|k: int, w: int|
                0 <= k < ri + 1 && 0 <= w < ws.len() implies !#[trigger] window_fails(
                    accounted_series(*cfg, rows@, k),
                    ws[w],
                    denominator_of(cfg.routes@[k], sv),
                ) by {
                if k == ri {
                    assert(!window_fails(series@, ws[w], denominator));
                }
            }
        }
        ri += 1;
    }
    let ghost mid_len = boundary.missing@.len();
    let ghost mid_missing = boundary.missing@;
    let mut g: usize = 0;
    while g < extras.len()
        invariant
            g <= extras@.len(),
            boundary.assumptions@ == old(boundary).assumptions@,
            boundary.missing@.len() == mid_len + g,
            mid_len == mid_missing.len(),
            boundary.missing@.take(mid_len as int) == mid_missing,
            forall|j: int|
                0 <= j < g ==> detected_gap(
                    #[trigger] boundary.missing@[mid_len + j],
                    MissingKind::RouteAttribution,
                    extras@[j]@,
                    undeclared_route_reason(),
                ),
        decreases extras.len() - g,
    {
        boundary.push_detected(
            CoverageGap::new(
                MissingKind::RouteAttribution,
                extras[g].clone(),
                String::from_str("flow observations reference a route_id not declared in project.toml"),
            ),
        );
        g += 1;
    }
    proof {
        let eseq = extras@.map_values(|x: String| x@);
        assert(boundary.missing@.take(old_len as int) =~= mid_missing.take(old_len as int));
        assert forall|j: int| 0 <= j < eseq.len() implies detected_gap(
            #[trigger] boundary.missing@[boundary.missing@.len() - eseq.len() + j],
            MissingKind::RouteAttribution,
            eseq[j],
            undeclared_route_reason(),
        ) by {
            assert(boundary.missing@[mid_len + j] == boundary.missing@[boundary.missing@.len() - eseq.len() + j]);
        }
        assert forall|j: int|
            old_len <= j < boundary.missing@.len() implies flow_gap_kind(#[trigger] boundary.missing@[j]) by {
            if j < mid_len {
                assert(boundary.missing@[j] == mid_missing[j]);
            } else {
                assert(detected_gap(
                    boundary.missing@[mid_len + (j - mid_len)],
                    MissingKind::RouteAttribution,
                    extras@[j - mid_len]@,
                    undeclared_route_reason(),
                ));
            }
        }
        assert(strictly_sorted(eseq));
        let notes = flow_notes(*cfg, rows@, sv, cfg.routes@.len() as int);
        assert(boundary.missing@.subrange(old_len as int, (old_len + notes.len()) as int) =~= mid_missing.subrange(
            old_len as int,
            mid_len as int,
        ));
        if flow_fails(*cfg, rows@, sv) {
            let (k, w) = choose|k: int, w: int|
                0 <= k < cfg.routes@.len() && 0 <= w < cfg.windows@.len() && #[trigger] window_fails(
                    accounted_series(*cfg, rows@, k),
                    cfg.windows@[w],
                    denominator_of(cfg.routes@[k], sv),
                );
            assert(false);
        }
    }
    if summaries.len() == 0 {
        let r = Ok(
            EvidenceSection::not_observable(
                String::from_str("routes declared but no in-window flow observations were accounted"),
            ),
        );
        proof {
            assert(summaries@ =~= Seq::<FlowSeriesSummary>::empty());
            assert(section_data(r) == summaries@);
            assert(flow_data(*cfg, rows@, supply_view(*supply), origin, section_data(r)));
        }
        return r;
    }
    let ghost data = summaries@;
    let r = Ok(EvidenceSection::available(summaries));
    proof {
        assert(section_data(r) == data);
        assert(flow_data(*cfg, rows@, supply_view(*supply), origin, section_data(r)));
    }
    r
}

} // verus!
