//! Validation of a mapped project: non-empty identity, well-formed and
//! uniquely named windows, unique asset keys and identities, routes between
//! two distinct declared assets with a consistent measurement contract, a
//! supply input where a denominator needs one, evidence and controls that
//! refer to declared routes and assets.
//!
//! Checks run in that order and the first failure is reported.
use crate::control::ControlAsset;
use crate::event::{reversed_window_message, unused_window_message, EventWindow};
use crate::identity::{same_asset_id, AssetKey, CanonicalAsset};
use crate::project::map::{config_mapped, map_raw, raw_problem};
use crate::project::{
    check_schema, invalid, validation, ProjectConfig, ProjectError, RawProject, SCHEMA_VERSION,
};
use crate::route::{
    measured_asset_of, DenominatorPolicy, FlowUnitConfig, MeasuredLeg, Route, RouteEvidence,
};
use crate::scan::{either_issue, first_issue, first_issue_from, lemma_first_issue_none};
use crate::text::{trim_text, trimmed};
use vstd::prelude::*;
use vstd::string::*;

verus! {

// ---------------------------------------------------------------- lookups

/// Whether `key` is the key of one of `assets`.
pub open spec fn key_declared(assets: Seq<CanonicalAsset>, key: Seq<char>) -> bool {
    exists|j: int| 0 <= j < assets.len() && (#[trigger] assets[j]).key.0@ == key
}

pub fn find_key(assets: &Vec<CanonicalAsset>, key: &AssetKey) -> (r: bool)
    ensures
        r == key_declared(assets@, key.0@),
{
    let mut j: usize = 0;
    while j < assets.len()
        invariant
            j <= assets@.len(),
            forall|k: int| 0 <= k < j ==> (#[trigger] assets@[k]).key.0@ != key.0@,
        decreases assets.len() - j,
    {
        if assets[j].key.same(key) {
            return true;
        }
        j += 1;
    }
    false
}

/// Whether a window before index `i` is named `name`.
pub open spec fn window_named_before(ws: Seq<EventWindow>, i: int, name: Seq<char>) -> bool {
    exists|j: int| 0 <= j < i && (#[trigger] ws[j]).name@ == name
}

pub fn find_window_name(ws: &Vec<EventWindow>, i: usize, name: &String) -> (r: bool)
    requires
        i <= ws@.len(),
    ensures
        r == window_named_before(ws@, i as int, name@),
{
    let mut j: usize = 0;
    while j < i
        invariant
            j <= i <= ws@.len(),
            forall|k: int| 0 <= k < j ==> (#[trigger] ws@[k]).name@ != name@,
        decreases i - j,
    {
        if ws[j].name == *name {
            return true;
        }
        j += 1;
    }
    false
}

/// Whether a route before index `i` has the id `id`.
pub open spec fn route_id_before(rs: Seq<Route>, i: int, id: Seq<char>) -> bool {
    exists|j: int| 0 <= j < i && (#[trigger] rs[j]).id@ == id
}

pub fn find_route_id(rs: &Vec<Route>, i: usize, id: &String) -> (r: bool)
    requires
        i <= rs@.len(),
    ensures
        r == route_id_before(rs@, i as int, id@),
{
    let mut j: usize = 0;
    while j < i
        invariant
            j <= i <= rs@.len(),
            forall|k: int| 0 <= k < j ==> (#[trigger] rs@[k]).id@ != id@,
        decreases i - j,
    {
        if rs[j].id == *id {
            return true;
        }
        j += 1;
    }
    false
}

// ---------------------------------------------------------------- windows

/// Why window `i` is refused, if it is: its own checks, then a name already used.
pub open spec fn window_issue(ws: Seq<EventWindow>, i: int) -> Option<Seq<char>> {
    let w = ws[i];
    if w.end.num() < w.start.num() {
        Some(reversed_window_message(w))
    } else if w.applies_to@.len() == 0 {
        Some(unused_window_message(w))
    } else if window_named_before(ws, i, w.name@) {
        Some("duplicate window name '"@ + w.name@ + "'"@)
    } else {
        None
    }
}

pub open spec fn window_issues(ws: Seq<EventWindow>) -> spec_fn(int) -> Option<Seq<char>> {
    |i: int| window_issue(ws, i)
}

fn check_windows(ws: &Vec<EventWindow>) -> (r: Result<(), ProjectError>)
    ensures
        match first_issue(ws@.len() as int, window_issues(ws@)) {
            Some(m) => invalid(r, m),
            None => r is Ok,
        },
{
    let ghost check = window_issues(ws@);
    let mut i: usize = 0;
    while i < ws.len()
        invariant
            i <= ws@.len(),
            check == window_issues(ws@),
            first_issue(ws@.len() as int, check) == first_issue_from(
                i as int,
                ws@.len() as int,
                check,
            ),
        decreases ws.len() - i,
    {
        match ws[i].validate() {
            Err(m) => {
                return validation(m);
            },
            Ok(()) => {},
        }
        if find_window_name(ws, i, &ws[i].name) {
            return validation(
                String::from_str("duplicate window name '").concat(ws[i].name.as_str()).concat("'"),
            );
        }
        i += 1;
    }
    Ok(())
}

// ---------------------------------------------------------------- assets

/// Why asset `i` is refused, if it is: a key or an identity already declared.
pub open spec fn asset_issue(assets: Seq<CanonicalAsset>, i: int) -> Option<Seq<char>> {
    let a = assets[i];
    if exists|j: int| 0 <= j < i && (#[trigger] assets[j]).key.0@ == a.key.0@ {
        Some("duplicate asset key '"@ + a.key.0@ + "'"@)
    } else if exists|j: int| 0 <= j < i && same_asset_id(#[trigger] assets[j].id, a.id) {
        Some(
            "duplicate asset id for key '"@ + a.key.0@
                + "' (ticker is not identity; locator collision)"@,
        )
    } else {
        None
    }
}

pub open spec fn asset_issues(assets: Seq<CanonicalAsset>) -> spec_fn(int) -> Option<Seq<char>> {
    |i: int| asset_issue(assets, i)
}

fn check_assets(assets: &Vec<CanonicalAsset>) -> (r: Result<(), ProjectError>)
    ensures
        match first_issue(assets@.len() as int, asset_issues(assets@)) {
            Some(m) => invalid(r, m),
            None => r is Ok,
        },
{
    let ghost check = asset_issues(assets@);
    let mut i: usize = 0;
    while i < assets.len()
        invariant
            i <= assets@.len(),
            check == asset_issues(assets@),
            first_issue(assets@.len() as int, check) == first_issue_from(
                i as int,
                assets@.len() as int,
                check,
            ),
        decreases assets.len() - i,
    {
        let a = &assets[i];
        let mut j: usize = 0;
        while j < i
            invariant
                j <= i < assets@.len(),
                *a == assets@[i as int],
                check == asset_issues(assets@),
                first_issue(assets@.len() as int, check) == first_issue_from(
                    i as int,
                    assets@.len() as int,
                    check,
                ),
                forall|k: int| 0 <= k < j ==> (#[trigger] assets@[k]).key.0@ != a.key.0@,
            decreases i - j,
        {
            if assets[j].key.same(&a.key) {
                return validation(
                    String::from_str("duplicate asset key '").concat(a.key.as_str()).concat("'"),
                );
            }
            j += 1;
        }
        let mut j: usize = 0;
        while j < i
            invariant
                j <= i < assets@.len(),
                *a == assets@[i as int],
                check == asset_issues(assets@),
                first_issue(assets@.len() as int, check) == first_issue_from(
                    i as int,
                    assets@.len() as int,
                    check,
                ),
                forall|k: int| 0 <= k < i ==> (#[trigger] assets@[k]).key.0@ != a.key.0@,
                forall|k: int| 0 <= k < j ==> !same_asset_id(#[trigger] assets@[k].id, a.id),
            decreases i - j,
        {
            if assets[j].id.same(&a.id) {
                return validation(
                    String::from_str("duplicate asset id for key '").concat(a.key.as_str()).concat(
                        "' (ticker is not identity; locator collision)",
                    ),
                );
            }
            j += 1;
        }
        i += 1;
    }
    Ok(())
}

// ---------------------------------------------------------------- routes

/// `MeasuredLeg` as its `Debug` form prints it.
pub open spec fn leg_debug(l: MeasuredLeg) -> Seq<char> {
    match l {
        MeasuredLeg::Source => "Source"@,
        MeasuredLeg::Destination => "Destination"@,
    }
}

fn leg_debug_text(l: MeasuredLeg) -> (r: &'static str)
    ensures
        r@ == leg_debug(l),
{
    match l {
        MeasuredLeg::Source => "Source",
        MeasuredLeg::Destination => "Destination",
    }
}

/// Why a route's measurement contract is refused, if it is: the unit asset
/// must be declared and be the measured leg's asset; a supply denominator
/// must be a declared asset, equal to the unit asset, under a token-native unit.
pub open spec fn route_measurement_problem(route: Route, assets: Seq<CanonicalAsset>) -> Option<
    Seq<char>,
> {
    let m = route.measurement;
    let head = "route '"@ + route.id@ + "': "@;
    if !key_declared(assets, m.unit_asset.0@) {
        Some(head + "measurement.unit_asset '"@ + m.unit_asset.0@ + "' is not a declared asset"@)
    } else if m.unit_asset.0@ != measured_asset_of(route).0@ {
        Some(
            head + "measurement.unit_asset '"@ + m.unit_asset.0@ + "' must equal measured_leg asset '"@
                + measured_asset_of(route).0@ + "' ("@ + leg_debug(m.measured_leg) + ")"@,
        )
    } else {
        match m.denominator {
            Some(DenominatorPolicy::SupplySnapshot { asset, .. }) => if !key_declared(
                assets,
                asset.0@,
            ) {
                Some(head + "denominator asset '"@ + asset.0@ + "' is not declared"@)
            } else {
                match m.unit {
                    FlowUnitConfig::TokenNative => if asset.0@ != m.unit_asset.0@ {
                        Some(
                            head + "denominator asset '"@ + asset.0@
                                + "' must equal measurement.unit_asset '"@ + m.unit_asset.0@
                                + "'"@,
                        )
                    } else {
                        None
                    },
                    FlowUnitConfig::QuoteUsd => Some(
                        head + "supply_snapshot denominator is incompatible with quote_usd unit"@,
                    ),
                    FlowUnitConfig::Unknown => Some(
                        head
                            + "supply_snapshot denominator requires a known unit (token_native)"@,
                    ),
                }
            },
            None => None,
        }
    }
}

/// Binds a route's measured leg, unit asset and denominator to each other
/// and to the declared assets.
pub fn validate_route_measurement(route: &Route, assets: &Vec<CanonicalAsset>) -> (r: Result<
    (),
    ProjectError,
>)
    ensures
        match route_measurement_problem(*route, assets@) {
            Some(m) => invalid(r, m),
            None => r is Ok,
        },
{
    let m = &route.measurement;
    let head = String::from_str("route '").concat(route.id.as_str()).concat("': ");
    if !find_key(assets, &m.unit_asset) {
        return validation(
            head.concat("measurement.unit_asset '").concat(m.unit_asset.as_str()).concat(
                "' is not a declared asset",
            ),
        );
    }
    let expected = route.measured_asset();
    if !m.unit_asset.same(expected) {
        return validation(
            head.concat("measurement.unit_asset '").concat(m.unit_asset.as_str()).concat(
                "' must equal measured_leg asset '",
            ).concat(expected.as_str()).concat("' (").concat(leg_debug_text(m.measured_leg)).concat(
                ")",
            ),
        );
    }
    match &m.denominator {
        Some(DenominatorPolicy::SupplySnapshot { asset, .. }) => {
            if !find_key(assets, asset) {
                return validation(
                    head.concat("denominator asset '").concat(asset.as_str()).concat(
                        "' is not declared",
                    ),
                );
            }
            match m.unit {
                FlowUnitConfig::TokenNative => {
                    if !asset.same(&m.unit_asset) {
                        return validation(
                            head.concat("denominator asset '").concat(asset.as_str()).concat(
                                "' must equal measurement.unit_asset '",
                            ).concat(m.unit_asset.as_str()).concat("'"),
                        );
                    }
                },
                FlowUnitConfig::QuoteUsd => {
                    return validation(
                        head.concat(
                            "supply_snapshot denominator is incompatible with quote_usd unit",
                        ),
                    );
                },
                FlowUnitConfig::Unknown => {
                    return validation(
                        head.concat(
                            "supply_snapshot denominator requires a known unit (token_native)",
                        ),
                    );
                },
            }
        },
        None => {},
    }
    Ok(())
}

/// Why route `i` is refused, if it is: an id already used, an undeclared or
/// identical endpoint, or its measurement contract.
pub open spec fn route_issue(rs: Seq<Route>, assets: Seq<CanonicalAsset>, i: int) -> Option<
    Seq<char>,
> {
    let rt = rs[i];
    let head = "route '"@ + rt.id@ + "': "@;
    if route_id_before(rs, i, rt.id@) {
        Some("duplicate route id '"@ + rt.id@ + "'"@)
    } else if !key_declared(assets, rt.source.0@) {
        Some(head + "unknown source asset '"@ + rt.source.0@ + "'"@)
    } else if !key_declared(assets, rt.destination.0@) {
        Some(head + "unknown destination asset '"@ + rt.destination.0@ + "'"@)
    } else if rt.source.0@ == rt.destination.0@ {
        Some(head + "source and destination are identical"@)
    } else {
        route_measurement_problem(rt, assets)
    }
}

pub open spec fn route_issues(rs: Seq<Route>, assets: Seq<CanonicalAsset>) -> spec_fn(int) -> Option<
    Seq<char>,
> {
    |i: int| route_issue(rs, assets, i)
}

fn check_routes(rs: &Vec<Route>, assets: &Vec<CanonicalAsset>) -> (r: Result<(), ProjectError>)
    ensures
        match first_issue(rs@.len() as int, route_issues(rs@, assets@)) {
            Some(m) => invalid(r, m),
            None => r is Ok,
        },
{
    let ghost check = route_issues(rs@, assets@);
    let mut i: usize = 0;
    while i < rs.len()
        invariant
            i <= rs@.len(),
            check == route_issues(rs@, assets@),
            first_issue(rs@.len() as int, check) == first_issue_from(
                i as int,
                rs@.len() as int,
                check,
            ),
        decreases rs.len() - i,
    {
        let rt = &rs[i];
        let head = String::from_str("route '").concat(rt.id.as_str()).concat("': ");
        if find_route_id(rs, i, &rt.id) {
            return validation(
                String::from_str("duplicate route id '").concat(rt.id.as_str()).concat("'"),
            );
        }
        if !find_key(assets, &rt.source) {
            return validation(
                head.concat("unknown source asset '").concat(rt.source.as_str()).concat("'"),
            );
        }
        if !find_key(assets, &rt.destination) {
            return validation(
                head.concat("unknown destination asset '").concat(rt.destination.as_str()).concat(
                    "'",
                ),
            );
        }
        if rt.source.same(&rt.destination) {
            return validation(head.concat("source and destination are identical"));
        }
        match validate_route_measurement(rt, assets) {
            Err(e) => {
                return Err(e);
            },
            Ok(()) => {},
        }
        i += 1;
    }
    Ok(())
}

// ---------------------------------------------------------------- references

/// Whether some route declares a denominator.
pub open spec fn any_denominator(rs: Seq<Route>) -> bool {
    exists|j: int| 0 <= j < rs.len() && (#[trigger] rs[j]).measurement.denominator is Some
}

fn has_denominator(rs: &Vec<Route>) -> (r: bool)
    ensures
        r == any_denominator(rs@),
{
    let mut j: usize = 0;
    while j < rs.len()
        invariant
            j <= rs@.len(),
            forall|k: int| 0 <= k < j ==> (#[trigger] rs@[k]).measurement.denominator is None,
        decreases rs.len() - j,
    {
        if rs[j].measurement.denominator.is_some() {
            return true;
        }
        j += 1;
    }
    false
}

/// Why evidence entry `i` is refused, if it is: it names no declared route.
pub open spec fn evidence_issue(evs: Seq<RouteEvidence>, rs: Seq<Route>, i: int) -> Option<
    Seq<char>,
> {
    if !route_id_before(rs, rs.len() as int, evs[i].route_id@) {
        Some("route_evidence refers to unknown route '"@ + evs[i].route_id@ + "'"@)
    } else {
        None
    }
}

pub open spec fn evidence_issues(evs: Seq<RouteEvidence>, rs: Seq<Route>) -> spec_fn(int) -> Option<
    Seq<char>,
> {
    |i: int| evidence_issue(evs, rs, i)
}

fn check_evidence(evs: &Vec<RouteEvidence>, rs: &Vec<Route>) -> (r: Result<(), ProjectError>)
    ensures
        match first_issue(evs@.len() as int, evidence_issues(evs@, rs@)) {
            Some(m) => invalid(r, m),
            None => r is Ok,
        },
{
    let ghost check = evidence_issues(evs@, rs@);
    let mut i: usize = 0;
    while i < evs.len()
        invariant
            i <= evs@.len(),
            check == evidence_issues(evs@, rs@),
            first_issue(evs@.len() as int, check) == first_issue_from(
                i as int,
                evs@.len() as int,
                check,
            ),
        decreases evs.len() - i,
    {
        if !find_route_id(rs, rs.len(), &evs[i].route_id) {
            return validation(
                String::from_str("route_evidence refers to unknown route '").concat(
                    evs[i].route_id.as_str(),
                ).concat("'"),
            );
        }
        i += 1;
    }
    Ok(())
}

/// Why control `i` is refused, if it is: its key is not a declared asset.
pub open spec fn control_issue(cs: Seq<ControlAsset>, assets: Seq<CanonicalAsset>, i: int) -> Option<
    Seq<char>,
> {
    if !key_declared(assets, cs[i].key.0@) {
        Some("control key '"@ + cs[i].key.0@ + "' is not a declared asset"@)
    } else {
        None
    }
}

pub open spec fn control_issues(cs: Seq<ControlAsset>, assets: Seq<CanonicalAsset>) -> spec_fn(
    int,
) -> Option<Seq<char>> {
    |i: int| control_issue(cs, assets, i)
}

fn check_controls(cs: &Vec<ControlAsset>, assets: &Vec<CanonicalAsset>) -> (r: Result<
    (),
    ProjectError,
>)
    ensures
        match first_issue(cs@.len() as int, control_issues(cs@, assets@)) {
            Some(m) => invalid(r, m),
            None => r is Ok,
        },
{
    let ghost check = control_issues(cs@, assets@);
    let mut i: usize = 0;
    while i < cs.len()
        invariant
            i <= cs@.len(),
            check == control_issues(cs@, assets@),
            first_issue(cs@.len() as int, check) == first_issue_from(
                i as int,
                cs@.len() as int,
                check,
            ),
        decreases cs.len() - i,
    {
        if !find_key(assets, &cs[i].key) {
            return validation(
                String::from_str("control key '").concat(cs[i].key.as_str()).concat(
                    "' is not a declared asset",
                ),
            );
        }
        i += 1;
    }
    Ok(())
}

// ---------------------------------------------------------------- the project

/// Why a project is refused, if it is: the first failing check, in the
/// order identity, windows, assets, routes, supply input, route evidence,
/// controls.
pub open spec fn project_problem(cfg: ProjectConfig) -> Option<Seq<char>> {
    if trimmed(cfg.project_id@).len() == 0 {
        Some("project_id must be non-empty"@)
    } else if cfg.windows@.len() == 0 {
        Some("at least one analysis window is required"@)
    } else {
        either_issue(
            first_issue(cfg.windows@.len() as int, window_issues(cfg.windows@)),
            either_issue(
                first_issue(cfg.assets@.len() as int, asset_issues(cfg.assets@)),
                either_issue(
                    first_issue(cfg.routes@.len() as int, route_issues(cfg.routes@, cfg.assets@)),
                    either_issue(
                        if any_denominator(cfg.routes@) && cfg.inputs.supply is None {
                            Some("at least one route denominator requires inputs.supply"@)
                        } else {
                            None
                        },
                        either_issue(
                            first_issue(
                                cfg.route_evidence@.len() as int,
                                evidence_issues(cfg.route_evidence@, cfg.routes@),
                            ),
                            first_issue(
                                cfg.controls@.len() as int,
                                control_issues(cfg.controls@, cfg.assets@),
                            ),
                        ),
                    ),
                ),
            ),
        )
    }
}

/// Validates a mapped project; `Ok` exactly when every check passes,
/// otherwise the validation error of the first check that fails.
pub fn validate_project(cfg: &ProjectConfig) -> (r: Result<(), ProjectError>)
    ensures
        match project_problem(*cfg) {
            Some(m) => invalid(r, m),
            None => r is Ok,
        },
        r is Ok ==> forall|k: int|
            0 <= k < cfg.routes@.len() ==> {
                &&& exists|a: int|
                    0 <= a < cfg.assets@.len() && (#[trigger] cfg.assets@[a]).key.0@
                        == cfg.routes@[k].source.0@
                &&& exists|b: int|
                    0 <= b < cfg.assets@.len() && (#[trigger] cfg.assets@[b]).key.0@
                        == cfg.routes@[k].destination.0@
                &&& (#[trigger] cfg.routes@[k]).source.0@ != cfg.routes@[k].destination.0@
            },
{
    let r = validate_checks(cfg);
    proof {
        if r is Ok {
            law_valid_routes_join_declared_assets(*cfg);
        }
    }
    r
}

/// The checks of `validate_project`, in order.
fn validate_checks(cfg: &ProjectConfig) -> (r: Result<(), ProjectError>)
    ensures
        match project_problem(*cfg) {
            Some(m) => invalid(r, m),
            None => r is Ok,
        },
{
    let trimmed_id = trim_text(cfg.project_id.as_str());
    if trimmed_id.as_str().is_empty() {
        return validation(String::from_str("project_id must be non-empty"));
    }
    if cfg.windows.len() == 0 {
        return validation(String::from_str("at least one analysis window is required"));
    }
    match check_windows(&cfg.windows) {
        Err(e) => {
            return Err(e);
        },
        Ok(()) => {},
    }
    match check_assets(&cfg.assets) {
        Err(e) => {
            return Err(e);
        },
        Ok(()) => {},
    }
    match check_routes(&cfg.routes, &cfg.assets) {
        Err(e) => {
            return Err(e);
        },
        Ok(()) => {},
    }
    if has_denominator(&cfg.routes) && cfg.inputs.supply.is_none() {
        return validation(String::from_str("at least one route denominator requires inputs.supply"));
    }
    match check_evidence(&cfg.route_evidence, &cfg.routes) {
        Err(e) => {
            return Err(e);
        },
        Ok(()) => {},
    }
    match check_controls(&cfg.controls, &cfg.assets) {
        Err(e) => {
            return Err(e);
        },
        Ok(()) => {},
    }
    Ok(())
}

// ---------------------------------------------------------------- loading

/// What loading a parsed project gives: the schema is checked first, then
/// the entries are mapped, then the mapped project is validated.
pub open spec fn build_outcome(raw: RawProject, r: Result<ProjectConfig, ProjectError>) -> bool {
    if raw.schema_version != SCHEMA_VERSION {
        r == Err::<ProjectConfig, ProjectError>(ProjectError::UnsupportedSchema(raw.schema_version))
    } else if raw.has_global_flow {
        invalid(
            r,
            "global [flow] was removed in schema v2; declare measurement on each [[routes]] entry"@,
        )
    } else {
        match raw_problem(raw) {
            Some(m) => invalid(r, m),
            None => match r {
                Ok(cfg) => config_mapped(raw, cfg) && project_problem(cfg) is None,
                Err(ProjectError::Validation(m)) => exists|cfg: ProjectConfig|
                    config_mapped(raw, cfg) && #[trigger] project_problem(cfg) == Some(m@),
                Err(ProjectError::UnsupportedSchema(_)) => false,
            },
        }
    }
}

/// Loads a parsed `project.toml`: checks the schema, maps the entries and
/// validates the result.
pub fn build_project(raw: &RawProject) -> (r: Result<ProjectConfig, ProjectError>)
    ensures
        build_outcome(*raw, r),
{
    match check_schema(raw.schema_version, raw.has_global_flow) {
        Err(e) => {
            return Err(e);
        },
        Ok(()) => {},
    }
    let cfg = match map_raw(raw) {
        Ok(c) => c,
        Err(e) => {
            return Err(e);
        },
    };
    match validate_project(&cfg) {
        Ok(()) => Ok(cfg),
        Err(e) => Err(e),
    }
}

/// A project that loading accepts passes validation and is at the schema
/// version this engine reads: loading validates.
pub proof fn law_loaded_project_validates(raw: RawProject, cfg: ProjectConfig)
    requires
        build_outcome(raw, Ok(cfg)),
    ensures
        project_problem(cfg) is None,
        cfg.schema_version == SCHEMA_VERSION,
{
}

/// A project that passes validation meets what the analysis asks of it:
/// each window starts no later than it ends and applies to some section,
/// and no two windows share a name.
pub proof fn law_valid_project_is_analyzable(cfg: ProjectConfig)
    requires
        project_problem(cfg) is None,
    ensures
        forall|i: int|
            0 <= i < cfg.windows@.len() ==> (#[trigger] cfg.windows@[i]).start.num()
                <= cfg.windows@[i].end.num() && cfg.windows@[i].applies_to@.len() > 0,
        forall|i: int|
            0 <= i < cfg.windows@.len() ==> !window_named_before(
                cfg.windows@,
                i,
                (#[trigger] cfg.windows@[i]).name@,
            ),
{
    let ws = cfg.windows@;
    let check = window_issues(ws);
    assert(first_issue(ws.len() as int, check) is None);
    lemma_first_issue_none(0, ws.len() as int, check);
    assert forall|i: int| 0 <= i < ws.len() implies (#[trigger] ws[i]).start.num() <= ws[i].end.num()
        && ws[i].applies_to@.len() > 0 && !window_named_before(ws, i, ws[i].name@) by {
        assert(check(i) is None);
    }
}

/// A valid project's routes join two distinct declared assets: the source
/// and the destination of every route are keys of declared assets, the two
/// differ, and no two routes share an id.
pub proof fn law_valid_routes_join_declared_assets(cfg: ProjectConfig)
    requires
        project_problem(cfg) is None,
    ensures
        forall|r: int|
            0 <= r < cfg.routes@.len() ==> {
                &&& exists|a: int|
                    0 <= a < cfg.assets@.len() && (#[trigger] cfg.assets@[a]).key.0@
                        == cfg.routes@[r].source.0@
                &&& exists|b: int|
                    0 <= b < cfg.assets@.len() && (#[trigger] cfg.assets@[b]).key.0@
                        == cfg.routes@[r].destination.0@
                &&& (#[trigger] cfg.routes@[r]).source.0@ != cfg.routes@[r].destination.0@
            },
        forall|r: int, q: int|
            0 <= q < r < cfg.routes@.len() ==> (#[trigger] cfg.routes@[q]).id@ != (#[trigger] cfg.routes@[r]).id@,
{
    let rs = cfg.routes@;
    let check = route_issues(rs, cfg.assets@);
    assert(first_issue(rs.len() as int, check) is None);
    lemma_first_issue_none(0, rs.len() as int, check);
    assert forall|r: int| 0 <= r < rs.len() implies {
        &&& exists|a: int|
            0 <= a < cfg.assets@.len() && (#[trigger] cfg.assets@[a]).key.0@ == rs[r].source.0@
        &&& exists|b: int|
            0 <= b < cfg.assets@.len() && (#[trigger] cfg.assets@[b]).key.0@ == rs[r].destination.0@
        &&& (#[trigger] rs[r]).source.0@ != rs[r].destination.0@
    } by {
        assert(check(r) is None);
    }
    assert forall|r: int, q: int| 0 <= q < r < rs.len() implies (#[trigger] rs[q]).id@ != (#[trigger] rs[r]).id@ by {
        assert(check(r) is None);
        assert(!route_id_before(rs, r, rs[r].id@));
    }
}

} // verus!
