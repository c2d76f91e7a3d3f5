//! Mapping the tables of a parsed `project.toml` onto the model types.
//!
//! Each entry is mapped field by field; the first entry whose text names no
//! known value stops the mapping with that value's validation error. Lists
//! are mapped in the order assets, routes, route evidence, windows.
use crate::control::ControlAsset;
use crate::coverage::CoverageGap;
use crate::event::{Event, EventWindow, SessionCalendar, WindowUse};
use crate::identity::{AssetId, AssetKey, AssetLocator, CanonicalAsset, ChainId};
use crate::project::{
    attribution_named, attribution_problem, control_relation_named, doc_status_named,
    doc_status_problem, exec_status_named, exec_status_problem, invalid, linkage_named,
    linkage_problem, mechanism_named, missing_kind_named, observed_status_named,
    observed_status_problem, parse_attribution, parse_control_relation, parse_doc, parse_exec,
    parse_linkage, parse_mechanism, parse_missing_kind, parse_observed, parse_product_kind,
    parse_restriction, parse_session_calendar, parse_window_use, product_kind_named,
    restriction_named, session_calendar_named, session_calendar_problem, validation,
    window_use_named, window_use_problem, InputPaths, ProjectConfig, ProjectError, RawAsset,
    RawControl, RawCoverage, RawLocator, RawMeasurement, RawProject, RawRoute, RawRouteEvidence,
    RawWindow,
};
use crate::route::{
    DenominatorPolicy, FlowUnitConfig, MeasuredLeg, Restriction, Route, RouteEvidence,
    RouteMeasurement,
};
use crate::scan::{either_issue, first_issue, first_issue_from};
use crate::text::{copy_opt_text, text_is};
use vstd::prelude::*;
use vstd::string::*;

verus! {

// ---------------------------------------------------------------- assets

/// The model locator for the locator keys as written.
pub open spec fn locator_mapped(raw: RawLocator, l: AssetLocator) -> bool {
    match raw {
        RawLocator::Mint { mint } => l matches AssetLocator::Mint { address } && address@ == mint@,
        RawLocator::Erc20 { erc20 } => l matches AssetLocator::Erc20 { address } && address@
            == erc20@,
        RawLocator::Cex { cex_venue, cex_symbol } => l matches AssetLocator::CexSymbol {
            venue,
            symbol,
        } && venue@ == cex_venue@ && symbol@ == cex_symbol@,
        RawLocator::Market { venue, instrument_id } => l matches AssetLocator::MarketInstrument {
            venue: v,
            instrument_id: i,
        } && v@ == venue@ && i@ == instrument_id@,
        RawLocator::Opaque { opaque_id } => l matches AssetLocator::Opaque { id } && id@
            == opaque_id@,
    }
}

/// Why an asset entry cannot be mapped, if it cannot.
pub open spec fn asset_problem(a: RawAsset) -> Option<Seq<char>> {
    match a.session_calendar {
        Some(c) => if session_calendar_named(c@) is None {
            Some(session_calendar_problem(c@))
        } else {
            None
        },
        None => None,
    }
}

/// The calendar an asset entry declares, `continuous` when it declares none.
pub open spec fn declared_calendar(a: RawAsset) -> SessionCalendar {
    match a.session_calendar {
        Some(c) => session_calendar_named(c@).unwrap(),
        None => SessionCalendar::Continuous,
    }
}

/// `c` is the asset entry `a`, field by field.
pub open spec fn asset_mapped(a: RawAsset, c: CanonicalAsset) -> bool {
    &&& c.key.0@ == a.key@
    &&& c.id.chain.0@ == a.chain@
    &&& locator_mapped(a.locator, c.id.locator)
    &&& c.display_symbol@ == a.display_symbol@
    &&& c.issuer == a.issuer
    &&& product_kind_named(a.product_kind@, c.product_kind)
    &&& c.underlying_ref == a.underlying_ref
    &&& c.role == a.role
    &&& c.session_calendar == declared_calendar(a)
}

fn map_locator(raw: &RawLocator) -> (r: AssetLocator)
    ensures
        locator_mapped(*raw, r),
{
    match raw {
        RawLocator::Mint { mint } => AssetLocator::Mint { address: mint.clone() },
        RawLocator::Erc20 { erc20 } => AssetLocator::Erc20 { address: erc20.clone() },
        RawLocator::Cex { cex_venue, cex_symbol } => AssetLocator::CexSymbol {
            venue: cex_venue.clone(),
            symbol: cex_symbol.clone(),
        },
        RawLocator::Market { venue, instrument_id } => AssetLocator::MarketInstrument {
            venue: venue.clone(),
            instrument_id: instrument_id.clone(),
        },
        RawLocator::Opaque { opaque_id } => AssetLocator::Opaque { id: opaque_id.clone() },
    }
}

/// Maps one asset entry.
pub fn map_asset(a: &RawAsset) -> (r: Result<CanonicalAsset, ProjectError>)
    ensures
        match asset_problem(*a) {
            Some(m) => invalid(r, m),
            None => r matches Ok(c) && asset_mapped(*a, c),
        },
{
    let session_calendar = match &a.session_calendar {
        Some(c) => match parse_session_calendar(c) {
            Ok(cal) => cal,
            Err(e) => {
                return Err(e);
            },
        },
        None => SessionCalendar::default_calendar(),
    };
    Ok(
        CanonicalAsset {
            key: AssetKey(a.key.clone()),
            id: AssetId { chain: ChainId(a.chain.clone()), locator: map_locator(&a.locator) },
            display_symbol: a.display_symbol.clone(),
            issuer: copy_opt_text(&a.issuer),
            product_kind: parse_product_kind(&a.product_kind),
            underlying_ref: copy_opt_text(&a.underlying_ref),
            role: copy_opt_text(&a.role),
            session_calendar,
        },
    )
}

/// The asset entries' checks, one per entry.
pub open spec fn asset_checks(assets: Seq<RawAsset>) -> spec_fn(int) -> Option<Seq<char>> {
    |i: int| asset_problem(assets[i])
}

/// Maps the asset entries in order, stopping at the first that cannot be mapped.
pub fn map_assets(assets: &Vec<RawAsset>) -> (r: Result<Vec<CanonicalAsset>, ProjectError>)
    ensures
        match first_issue(assets@.len() as int, asset_checks(assets@)) {
            Some(m) => invalid(r, m),
            None => r matches Ok(v) && v@.len() == assets@.len() && forall|i: int|
                0 <= i < assets@.len() ==> #[trigger] asset_mapped(assets@[i], v@[i]),
        },
{
    let ghost check = asset_checks(assets@);
    let mut out: Vec<CanonicalAsset> = Vec::new();
    let mut i: usize = 0;
    while i < assets.len()
        invariant
            i <= assets@.len(),
            check == asset_checks(assets@),
            out@.len() == i,
            forall|j: int| 0 <= j < i ==> #[trigger] asset_mapped(assets@[j], out@[j]),
            first_issue(assets@.len() as int, check) == first_issue_from(
                i as int,
                assets@.len() as int,
                check,
            ),
        decreases assets.len() - i,
    {
        match map_asset(&assets[i]) {
            Ok(c) => {
                out.push(c);
            },
            Err(e) => {
                return Err(e);
            },
        }
        i += 1;
    }
    Ok(out)
}

// ---------------------------------------------------------------- routes

pub open spec fn unit_named(s: Seq<char>) -> Option<FlowUnitConfig> {
    if s == "token_native"@ {
        Some(FlowUnitConfig::TokenNative)
    } else if s == "quote_usd"@ {
        Some(FlowUnitConfig::QuoteUsd)
    } else if s == "unknown"@ {
        Some(FlowUnitConfig::Unknown)
    } else {
        None
    }
}

pub open spec fn leg_named(s: Seq<char>) -> Option<MeasuredLeg> {
    if s == "source"@ {
        Some(MeasuredLeg::Source)
    } else if s == "destination"@ {
        Some(MeasuredLeg::Destination)
    } else {
        None
    }
}

/// Why a route's measurement table cannot be mapped, if it cannot: the
/// unit, the measured leg, the attribution and the denominator type are
/// checked in that order.
pub open spec fn measurement_problem(m: RawMeasurement) -> Option<Seq<char>> {
    if unit_named(m.unit@) is None {
        Some("unknown measurement.unit '"@ + m.unit@ + "'"@)
    } else if leg_named(m.measured_leg@) is None {
        Some(
            "unrecognized measurement.measured_leg '"@ + m.measured_leg@
                + "' (expected source|destination)"@,
        )
    } else if attribution_named(m.attribution@) is None {
        Some(attribution_problem(m.attribution@))
    } else {
        match m.denominator {
            Some(d) => if d.kind@ != "supply_snapshot"@ {
                Some("unknown denominator type '"@ + d.kind@ + "'"@)
            } else {
                None
            },
            None => None,
        }
    }
}

/// `rm` is the measurement table `m`.
pub open spec fn measurement_mapped(m: RawMeasurement, rm: RouteMeasurement) -> bool {
    &&& Some(rm.unit) == unit_named(m.unit@)
    &&& rm.unit_asset.0@ == m.unit_asset@
    &&& Some(rm.measured_leg) == leg_named(m.measured_leg@)
    &&& Some(rm.attribution) == attribution_named(m.attribution@)
    &&& match m.denominator {
        None => rm.denominator is None,
        Some(d) => rm.denominator matches Some(DenominatorPolicy::SupplySnapshot { asset, as_of })
            && asset.0@ == d.asset@ && as_of == d.as_of,
    }
}

/// Maps a route's measurement table.
pub fn map_measurement(raw: &RawMeasurement) -> (r: Result<RouteMeasurement, ProjectError>)
    ensures
        match measurement_problem(*raw) {
            Some(m) => invalid(r, m),
            None => r matches Ok(rm) && measurement_mapped(*raw, rm),
        },
{
    let unit = if text_is(&raw.unit, "token_native") {
        FlowUnitConfig::TokenNative
    } else if text_is(&raw.unit, "quote_usd") {
        FlowUnitConfig::QuoteUsd
    } else if text_is(&raw.unit, "unknown") {
        FlowUnitConfig::Unknown
    } else {
        return validation(
            String::from_str("unknown measurement.unit '").concat(raw.unit.as_str()).concat("'"),
        );
    };
    let measured_leg = if text_is(&raw.measured_leg, "source") {
        MeasuredLeg::Source
    } else if text_is(&raw.measured_leg, "destination") {
        MeasuredLeg::Destination
    } else {
        return validation(
            String::from_str("unrecognized measurement.measured_leg '").concat(
                raw.measured_leg.as_str(),
            ).concat("' (expected source|destination)"),
        );
    };
    let attribution = match parse_attribution(&raw.attribution) {
        Ok(a) => a,
        Err(e) => {
            return Err(e);
        },
    };
    let denominator = match &raw.denominator {
        None => None,
        Some(d) => {
            if !text_is(&d.kind, "supply_snapshot") {
                return validation(
                    String::from_str("unknown denominator type '").concat(d.kind.as_str()).concat(
                        "'",
                    ),
                );
            }
            Some(DenominatorPolicy::SupplySnapshot { asset: AssetKey(d.asset.clone()), as_of: d.as_of })
        },
    };
    Ok(
        RouteMeasurement {
            unit,
            unit_asset: AssetKey(raw.unit_asset.clone()),
            measured_leg,
            attribution,
            denominator,
        },
    )
}

/// `r` is the route entry `raw`.
pub open spec fn route_mapped(raw: RawRoute, r: Route) -> bool {
    &&& r.id@ == raw.id@
    &&& r.source.0@ == raw.source@
    &&& r.destination.0@ == raw.destination@
    &&& mechanism_named(raw.mechanism@, r.mechanism)
    &&& measurement_mapped(raw.measurement, r.measurement)
}

pub open spec fn route_checks(routes: Seq<RawRoute>) -> spec_fn(int) -> Option<Seq<char>> {
    |i: int| measurement_problem(routes[i].measurement)
}

/// Maps one route entry.
pub fn map_route(raw: &RawRoute) -> (r: Result<Route, ProjectError>)
    ensures
        match measurement_problem(raw.measurement) {
            Some(m) => invalid(r, m),
            None => r matches Ok(rt) && route_mapped(*raw, rt),
        },
{
    let mechanism = match parse_mechanism(&raw.mechanism) {
        Ok(m) => m,
        Err(e) => {
            return Err(e);
        },
    };
    let measurement = match map_measurement(&raw.measurement) {
        Ok(m) => m,
        Err(e) => {
            return Err(e);
        },
    };
    Ok(
        Route {
            id: raw.id.clone(),
            source: AssetKey(raw.source.clone()),
            destination: AssetKey(raw.destination.clone()),
            mechanism,
            measurement,
        },
    )
}

/// Maps the route entries in order, stopping at the first that cannot be mapped.
pub fn map_routes(routes: &Vec<RawRoute>) -> (r: Result<Vec<Route>, ProjectError>)
    ensures
        match first_issue(routes@.len() as int, route_checks(routes@)) {
            Some(m) => invalid(r, m),
            None => r matches Ok(v) && v@.len() == routes@.len() && forall|i: int|
                0 <= i < routes@.len() ==> #[trigger] route_mapped(routes@[i], v@[i]),
        },
{
    let ghost check = route_checks(routes@);
    let mut out: Vec<Route> = Vec::new();
    let mut i: usize = 0;
    while i < routes.len()
        invariant
            i <= routes@.len(),
            check == route_checks(routes@),
            out@.len() == i,
            forall|j: int| 0 <= j < i ==> #[trigger] route_mapped(routes@[j], out@[j]),
            first_issue(routes@.len() as int, check) == first_issue_from(
                i as int,
                routes@.len() as int,
                check,
            ),
        decreases routes.len() - i,
    {
        match map_route(&routes[i]) {
            Ok(rt) => {
                out.push(rt);
            },
            Err(e) => {
                return Err(e);
            },
        }
        i += 1;
    }
    Ok(out)
}

// ---------------------------------------------------------------- evidence

/// Why a route evidence entry cannot be mapped, if it cannot: its statuses
/// are checked in the order documented, executable, observed, linkage.
pub open spec fn evidence_problem(e: RawRouteEvidence) -> Option<Seq<char>> {
    if doc_status_named(e.documented@) is None {
        Some(doc_status_problem(e.documented@))
    } else if exec_status_named(e.technically_executable@) is None {
        Some(exec_status_problem(e.technically_executable@))
    } else if observed_status_named(e.observed_on_chain@) is None {
        Some(observed_status_problem(e.observed_on_chain@))
    } else if linkage_named(e.linkage_class@) is None {
        Some(linkage_problem(e.linkage_class@))
    } else {
        None
    }
}

/// `ev` is the route evidence entry `e`.
pub open spec fn evidence_mapped(e: RawRouteEvidence, ev: RouteEvidence) -> bool {
    &&& ev.route_id@ == e.route_id@
    &&& Some(ev.documented) == doc_status_named(e.documented@)
    &&& Some(ev.technically_executable) == exec_status_named(e.technically_executable@)
    &&& Some(ev.observed_on_chain) == observed_status_named(e.observed_on_chain@)
    &&& ev.restrictions@.len() == e.restrictions@.len()
    &&& forall|k: int|
        0 <= k < e.restrictions@.len() ==> #[trigger] restriction_named(
            e.restrictions@[k]@,
            ev.restrictions@[k],
        )
    &&& Some(ev.linkage_class) == linkage_named(e.linkage_class@)
    &&& ev.notes == e.notes
}

pub open spec fn evidence_checks(entries: Seq<RawRouteEvidence>) -> spec_fn(int) -> Option<
    Seq<char>,
> {
    |i: int| evidence_problem(entries[i])
}

/// Maps one route evidence entry.
pub fn map_evidence(e: &RawRouteEvidence) -> (r: Result<RouteEvidence, ProjectError>)
    ensures
        match evidence_problem(*e) {
            Some(m) => invalid(r, m),
            None => r matches Ok(ev) && evidence_mapped(*e, ev),
        },
{
    let documented = match parse_doc(&e.documented) {
        Ok(d) => d,
        Err(err) => {
            return Err(err);
        },
    };
    let technically_executable = match parse_exec(&e.technically_executable) {
        Ok(x) => x,
        Err(err) => {
            return Err(err);
        },
    };
    let observed_on_chain = match parse_observed(&e.observed_on_chain) {
        Ok(o) => o,
        Err(err) => {
            return Err(err);
        },
    };
    let mut restrictions: Vec<Restriction> = Vec::new();
    let mut k: usize = 0;
    while k < e.restrictions.len()
        invariant
            k <= e.restrictions@.len(),
            restrictions@.len() == k,
            forall|j: int|
                0 <= j < k ==> #[trigger] restriction_named(
                    e.restrictions@[j]@,
                    restrictions@[j],
                ),
        decreases e.restrictions.len() - k,
    {
        restrictions.push(parse_restriction(&e.restrictions[k]));
        k += 1;
    }
    let linkage_class = match parse_linkage(&e.linkage_class) {
        Ok(l) => l,
        Err(err) => {
            return Err(err);
        },
    };
    Ok(
        RouteEvidence {
            route_id: e.route_id.clone(),
            documented,
            technically_executable,
            observed_on_chain,
            restrictions,
            linkage_class,
            notes: copy_opt_text(&e.notes),
        },
    )
}

/// Maps the route evidence entries in order, stopping at the first that
/// cannot be mapped.
pub fn map_evidence_entries(entries: &Vec<RawRouteEvidence>) -> (r: Result<
    Vec<RouteEvidence>,
    ProjectError,
>)
    ensures
        match first_issue(entries@.len() as int, evidence_checks(entries@)) {
            Some(m) => invalid(r, m),
            None => r matches Ok(v) && v@.len() == entries@.len() && forall|i: int|
                0 <= i < entries@.len() ==> #[trigger] evidence_mapped(entries@[i], v@[i]),
        },
{
    let ghost check = evidence_checks(entries@);
    let mut out: Vec<RouteEvidence> = Vec::new();
    let mut i: usize = 0;
    while i < entries.len()
        invariant
            i <= entries@.len(),
            check == evidence_checks(entries@),
            out@.len() == i,
            forall|j: int| 0 <= j < i ==> #[trigger] evidence_mapped(entries@[j], out@[j]),
            first_issue(entries@.len() as int, check) == first_issue_from(
                i as int,
                entries@.len() as int,
                check,
            ),
        decreases entries.len() - i,
    {
        match map_evidence(&entries[i]) {
            Ok(ev) => {
                out.push(ev);
            },
            Err(err) => {
                return Err(err);
            },
        }
        i += 1;
    }
    Ok(out)
}

// ---------------------------------------------------------------- windows

pub open spec fn use_checks(uses: Seq<String>) -> spec_fn(int) -> Option<Seq<char>> {
    |i: int|
        if window_use_named(uses[i]@) is None {
            Some(window_use_problem(uses[i]@))
        } else {
            None
        }
}

/// Why a window entry cannot be mapped, if it cannot: the first
/// unrecognized `applies_to` value.
pub open spec fn window_problem(w: RawWindow) -> Option<Seq<char>> {
    match w.applies_to {
        Some(uses) => first_issue(uses@.len() as int, use_checks(uses@)),
        None => None,
    }
}

/// The uses a window entry declares; both when it declares none.
pub open spec fn declared_uses(w: RawWindow) -> Seq<WindowUse> {
    match w.applies_to {
        Some(uses) => Seq::new(uses@.len(), |i: int| window_use_named(uses@[i]@).unwrap()),
        None => seq![WindowUse::Response, WindowUse::Flow],
    }
}

/// `ew` is the window entry `w`.
pub open spec fn window_mapped(w: RawWindow, ew: EventWindow) -> bool {
    &&& ew.name@ == w.name@
    &&& ew.start == w.start
    &&& ew.end == w.end
    &&& ew.applies_to@ == declared_uses(w)
}

pub open spec fn window_checks(windows: Seq<RawWindow>) -> spec_fn(int) -> Option<Seq<char>> {
    |i: int| window_problem(windows[i])
}

/// Maps one window entry.
pub fn map_window(w: &RawWindow) -> (r: Result<EventWindow, ProjectError>)
    ensures
        match window_problem(*w) {
            Some(m) => invalid(r, m),
            None => r matches Ok(ew) && window_mapped(*w, ew),
        },
{
    let applies_to = match &w.applies_to {
        None => crate::event::default_window_applies_to(),
        Some(uses) => {
            let ghost check = use_checks(uses@);
            let mut out: Vec<WindowUse> = Vec::new();
            let mut i: usize = 0;
            while i < uses.len()
                invariant
                    i <= uses@.len(),
                    w.applies_to == Some(*uses),
                    check == use_checks(uses@),
                    out@.len() == i,
                    forall|j: int|
                        0 <= j < i ==> Some(#[trigger] out@[j]) == window_use_named(uses@[j]@),
                    first_issue(uses@.len() as int, check) == first_issue_from(
                        i as int,
                        uses@.len() as int,
                        check,
                    ),
                decreases uses.len() - i,
            {
                match parse_window_use(&uses[i]) {
                    Ok(u) => {
                        out.push(u);
                    },
                    Err(e) => {
                        return Err(e);
                    },
                }
                i += 1;
            }
            proof {
                assert(out@ =~= Seq::new(
                    uses@.len(),
                    |i: int| window_use_named(uses@[i]@).unwrap(),
                ));
            }
            out
        },
    };
    Ok(EventWindow { name: w.name.clone(), start: w.start, end: w.end, applies_to })
}

/// Maps the window entries in order, stopping at the first that cannot be mapped.
pub fn map_windows(windows: &Vec<RawWindow>) -> (r: Result<Vec<EventWindow>, ProjectError>)
    ensures
        match first_issue(windows@.len() as int, window_checks(windows@)) {
            Some(m) => invalid(r, m),
            None => r matches Ok(v) && v@.len() == windows@.len() && forall|i: int|
                0 <= i < windows@.len() ==> #[trigger] window_mapped(windows@[i], v@[i]),
        },
{
    let ghost check = window_checks(windows@);
    let mut out: Vec<EventWindow> = Vec::new();
    let mut i: usize = 0;
    while i < windows.len()
        invariant
            i <= windows@.len(),
            check == window_checks(windows@),
            out@.len() == i,
            forall|j: int| 0 <= j < i ==> #[trigger] window_mapped(windows@[j], out@[j]),
            first_issue(windows@.len() as int, check) == first_issue_from(
                i as int,
                windows@.len() as int,
                check,
            ),
        decreases windows.len() - i,
    {
        match map_window(&windows[i]) {
            Ok(ew) => {
                out.push(ew);
            },
            Err(e) => {
                return Err(e);
            },
        }
        i += 1;
    }
    Ok(out)
}

// ---------------------------------------------------------------- controls, coverage

/// `c` is the control entry `raw`.
pub open spec fn control_mapped(raw: RawControl, c: ControlAsset) -> bool {
    c.key.0@ == raw.key@ && control_relation_named(raw.relation@, c.relation)
}

/// `g` is the declared coverage entry `raw`.
pub open spec fn coverage_mapped(raw: RawCoverage, g: CoverageGap) -> bool {
    &&& missing_kind_named(raw.kind@, g.kind)
    &&& g.scope@ == raw.scope@
    &&& g.reason@ == raw.reason@
}

/// Maps the control entries; every relation name is accepted.
pub fn map_controls(controls: &Vec<RawControl>) -> (r: Vec<ControlAsset>)
    ensures
        r@.len() == controls@.len(),
        forall|i: int| 0 <= i < controls@.len() ==> #[trigger] control_mapped(controls@[i], r@[i]),
{
    let mut out: Vec<ControlAsset> = Vec::new();
    let mut i: usize = 0;
    while i < controls.len()
        invariant
            i <= controls@.len(),
            out@.len() == i,
            forall|j: int| 0 <= j < i ==> #[trigger] control_mapped(controls@[j], out@[j]),
        decreases controls.len() - i,
    {
        out.push(
            ControlAsset {
                key: AssetKey(controls[i].key.clone()),
                relation: parse_control_relation(&controls[i].relation),
            },
        );
        i += 1;
    }
    out
}

/// Maps the declared coverage entries; every kind name is accepted.
pub fn map_coverage(entries: &Vec<RawCoverage>) -> (r: Vec<CoverageGap>)
    ensures
        r@.len() == entries@.len(),
        forall|i: int| 0 <= i < entries@.len() ==> #[trigger] coverage_mapped(entries@[i], r@[i]),
{
    let mut out: Vec<CoverageGap> = Vec::new();
    let mut i: usize = 0;
    while i < entries.len()
        invariant
            i <= entries@.len(),
            out@.len() == i,
            forall|j: int| 0 <= j < i ==> #[trigger] coverage_mapped(entries@[j], out@[j]),
        decreases entries.len() - i,
    {
        out.push(
            CoverageGap::new(
                parse_missing_kind(&entries[i].kind),
                entries[i].scope.clone(),
                entries[i].reason.clone(),
            ),
        );
        i += 1;
    }
    out
}

// ---------------------------------------------------------------- the project

/// Why a parsed project cannot be mapped, if it cannot: the first entry that
/// cannot be mapped, taking assets, routes, route evidence and windows in
/// that order.
pub open spec fn raw_problem(raw: RawProject) -> Option<Seq<char>> {
    either_issue(
        first_issue(raw.assets@.len() as int, asset_checks(raw.assets@)),
        either_issue(
            first_issue(raw.routes@.len() as int, route_checks(raw.routes@)),
            either_issue(
                first_issue(raw.route_evidence@.len() as int, evidence_checks(raw.route_evidence@)),
                first_issue(raw.windows@.len() as int, window_checks(raw.windows@)),
            ),
        ),
    )
}

/// `cfg` is the parsed project `raw`, entry by entry.
pub open spec fn config_mapped(raw: RawProject, cfg: ProjectConfig) -> bool {
    &&& cfg.schema_version == raw.schema_version
    &&& cfg.project_id@ == raw.project_id@
    &&& cfg.name@ == raw.name@
    &&& cfg.event.id@ == raw.event.id@
    &&& cfg.event.name@ == raw.event.name@
    &&& cfg.event.timestamp == raw.event.timestamp
    &&& cfg.windows@.len() == raw.windows@.len()
    &&& (forall|i: int|
        0 <= i < raw.windows@.len() ==> #[trigger] window_mapped(raw.windows@[i], cfg.windows@[i]))
    &&& cfg.assets@.len() == raw.assets@.len()
    &&& (forall|i: int|
        0 <= i < raw.assets@.len() ==> #[trigger] asset_mapped(raw.assets@[i], cfg.assets@[i]))
    &&& cfg.routes@.len() == raw.routes@.len()
    &&& (forall|i: int|
        0 <= i < raw.routes@.len() ==> #[trigger] route_mapped(raw.routes@[i], cfg.routes@[i]))
    &&& cfg.route_evidence@.len() == raw.route_evidence@.len()
    &&& (forall|i: int|
        0 <= i < raw.route_evidence@.len() ==> #[trigger] evidence_mapped(
            raw.route_evidence@[i],
            cfg.route_evidence@[i],
        ))
    &&& cfg.controls@.len() == raw.controls@.len()
    &&& (forall|i: int|
        0 <= i < raw.controls@.len() ==> #[trigger] control_mapped(
            raw.controls@[i],
            cfg.controls@[i],
        ))
    &&& cfg.coverage_declared@.len() == raw.coverage_declared@.len()
    &&& (forall|i: int|
        0 <= i < raw.coverage_declared@.len() ==> #[trigger] coverage_mapped(
            raw.coverage_declared@[i],
            cfg.coverage_declared@[i],
        ))
    &&& cfg.inputs.flows == raw.inputs.flows
    &&& cfg.inputs.supply == raw.inputs.supply
    &&& cfg.inputs.response == raw.inputs.response
    &&& cfg.inputs.references == raw.inputs.references
    &&& cfg.response == raw.response
    &&& cfg.data_provenance == raw.data_provenance
}

/// Maps a parsed project onto the model. Fails with the validation error of
/// the first entry that names no known value.
pub fn map_raw(raw: &RawProject) -> (r: Result<ProjectConfig, ProjectError>)
    ensures
        match raw_problem(*raw) {
            Some(m) => invalid(r, m),
            None => r matches Ok(cfg) && config_mapped(*raw, cfg),
        },
{
    let assets = match map_assets(&raw.assets) {
        Ok(v) => v,
        Err(e) => {
            return Err(e);
        },
    };
    let routes = match map_routes(&raw.routes) {
        Ok(v) => v,
        Err(e) => {
            return Err(e);
        },
    };
    let route_evidence = match map_evidence_entries(&raw.route_evidence) {
        Ok(v) => v,
        Err(e) => {
            return Err(e);
        },
    };
    let controls = map_controls(&raw.controls);
    let coverage_declared = map_coverage(&raw.coverage_declared);
    let windows = match map_windows(&raw.windows) {
        Ok(v) => v,
        Err(e) => {
            return Err(e);
        },
    };
    let response = match &raw.response {
        Some(rc) => Some(rc.clone()),
        None => None,
    };
    let data_provenance = match &raw.data_provenance {
        Some(dp) => Some(dp.clone()),
        None => None,
    };
    Ok(
        ProjectConfig {
            schema_version: raw.schema_version,
            project_id: raw.project_id.clone(),
            name: raw.name.clone(),
            event: Event {
                id: raw.event.id.clone(),
                name: raw.event.name.clone(),
                timestamp: raw.event.timestamp,
            },
            windows,
            assets,
            routes,
            route_evidence,
            controls,
            coverage_declared,
            inputs: InputPaths {
                flows: copy_opt_text(&raw.inputs.flows),
                supply: copy_opt_text(&raw.inputs.supply),
                response: copy_opt_text(&raw.inputs.response),
                references: copy_opt_text(&raw.inputs.references),
            },
            response,
            data_provenance,
        },
    )
}

} // verus!
