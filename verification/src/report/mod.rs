//! Assembling the analysis result: market response, route evidence and
//! directional flow are separate sections, each with its availability.
//! Absence is never encoded as zero.
//!
//! Reading the input files is left to the caller: the functions here say
//! which inputs a project asks for and take the rows read from them.
use crate::coverage::{with_source, CoverageGap, EvidenceBoundary, GapSource, MissingKind};
use crate::day::Day;
use crate::order::strictly_sorted;
use crate::dec::Dec;
use crate::identity::AssetKey;
use crate::ingest::daily_flows::RawDailyFlow;
use crate::project::validate::window_named_before;
use crate::provenance::{hash_bytes, hex_of, sha256_of, InputHash};
use crate::response::ResponseObservation;
use crate::evidence::EvidenceSection;
use crate::report::flows::{
    denominator_of, detected_gap, first_flow_failure, flow_data, flow_fails, flow_notes,
    no_flow_rows_reason, no_flows_input_reason, no_routes_flow_reason, notes_match,
    route_window_series, supply_view, undeclared_route_ids, undeclared_route_reason,
};
use crate::report::market::{
    first_market_failure, market_data, market_fails, market_gaps, no_response_rows_reason,
    response_config_missing_reason, response_not_requested_reason, response_requested,
    window_series,
};
use crate::flow::{flow_error_is, FlowError, FlowSeriesSummary};
use crate::project::{ProjectConfig, ProjectError};
use crate::provenance::ProvenanceRecord;
use crate::response::{response_error_is, ResponseError, ResponseSeriesSummary};
use crate::route::RouteEvidence;
use vstd::prelude::*;
use vstd::string::*;

pub mod market;
pub mod flows;
pub mod render;

verus! {

/// Identifier of the directional-flow metric definition.
pub const FLOW_METRIC_ID: &'static str = "directional_flow.v2";

/// Identifier of the market-response metric definition.
pub const RESPONSE_METRIC_ID: &'static str = "market_response.v1";

#[derive(Debug, PartialEq, Eq)]
pub enum AnalyzeError {
    Project(ProjectError),
    Flow(FlowError),
    Response(ResponseError),
    /// An input file could not be read or parsed.
    Ingest(String),
}

#[derive(Debug, PartialEq, Eq)]
pub struct AnalysisResult {
    pub project_id: String,
    pub engine_version: String,
    pub market_response: EvidenceSection<Vec<ResponseSeriesSummary>>,
    pub route_evidence: EvidenceSection<Vec<RouteEvidence>>,
    pub directional_flow: EvidenceSection<Vec<FlowSeriesSummary>>,
    pub boundary: EvidenceBoundary,
    pub provenance: ProvenanceRecord,
}

/// The rows of a section when it is available; none otherwise.
pub open spec fn available_rows<T>(s: EvidenceSection<Vec<T>>) -> Seq<T> {
    match s {
        EvidenceSection::Available { data } => data@,
        _ => Seq::empty(),
    }
}

/// The rows of an available section; none otherwise.
pub open spec fn section_data<T, E>(r: Result<EvidenceSection<Vec<T>>, E>) -> Seq<T> {
    match r {
        Ok(s) => available_rows(s),
        Err(_) => Seq::empty(),
    }
}

/// The reason given when no routes are declared.
pub open spec fn no_routes_reason() -> Seq<char> {
    "no [[routes]] declared; route evidence ladder step not applicable"@
}

/// The reason given when routes are declared without evidence rows.
pub open spec fn no_route_evidence_reason() -> Seq<char> {
    "routes declared but no [[route_evidence]] rows provided"@
}

fn copy_route_evidence(v: &Vec<RouteEvidence>) -> (r: Vec<RouteEvidence>)
    ensures
        r@.len() == v@.len(),
        forall|i: int|
            0 <= i < v@.len() ==> {
                let (a, b) = (#[trigger] r@[i], v@[i]);
                &&& a.route_id == b.route_id
                &&& a.documented == b.documented
                &&& a.technically_executable == b.technically_executable
                &&& a.observed_on_chain == b.observed_on_chain
                &&& a.restrictions@ == b.restrictions@
                &&& a.linkage_class == b.linkage_class
                &&& a.notes == b.notes
            },
{
    let mut out: Vec<RouteEvidence> = Vec::new();
    let mut i: usize = 0;
    while i < v.len()
        invariant
            i <= v@.len(),
            out@.len() == i,
            forall|j: int|
                0 <= j < i ==> {
                    let (a, b) = (#[trigger] out@[j], v@[j]);
                    &&& a.route_id == b.route_id
                    &&& a.documented == b.documented
                    &&& a.technically_executable == b.technically_executable
                    &&& a.observed_on_chain == b.observed_on_chain
                    &&& a.restrictions@ == b.restrictions@
                    &&& a.linkage_class == b.linkage_class
                    &&& a.notes == b.notes
                },
        decreases v.len() - i,
    {
        out.push(v[i].clone());
        i += 1;
    }
    out
}

/// The route evidence section: not declared without routes, not observable
/// without evidence rows, otherwise the declared evidence rows.
/// Whether `r` is the route evidence section of the project: not declared
/// without routes, not observable without evidence rows, otherwise a copy of
/// the declared evidence rows.
pub open spec fn route_evidence_section(cfg: ProjectConfig, r: EvidenceSection<Vec<RouteEvidence>>) -> bool {
    &&& cfg.routes@.len() == 0 ==> (r matches EvidenceSection::NotDeclared { reason } && reason@
        == no_routes_reason())
    &&& cfg.routes@.len() > 0 && cfg.route_evidence@.len() == 0 ==> (r matches EvidenceSection::NotObservable {
        reason,
    } && reason@ == no_route_evidence_reason())
    &&& cfg.routes@.len() > 0 && cfg.route_evidence@.len() > 0 ==> (r matches EvidenceSection::Available {
        data,
    } && data@.len() == cfg.route_evidence@.len() && forall|i: int|
        0 <= i < data@.len() ==> (#[trigger] data@[i]).route_id == cfg.route_evidence@[i].route_id
            && data@[i].documented == cfg.route_evidence@[i].documented
            && data@[i].technically_executable == cfg.route_evidence@[i].technically_executable
            && data@[i].observed_on_chain == cfg.route_evidence@[i].observed_on_chain
            && data@[i].restrictions@ == cfg.route_evidence@[i].restrictions@
            && data@[i].linkage_class == cfg.route_evidence@[i].linkage_class
            && data@[i].notes == cfg.route_evidence@[i].notes)
}

pub fn compute_route_evidence(cfg: &ProjectConfig) -> (r: EvidenceSection<Vec<RouteEvidence>>)
    ensures
        route_evidence_section(*cfg, r),
{
    if cfg.routes.len() == 0 {
        EvidenceSection::not_declared(
            String::from_str("no [[routes]] declared; route evidence ladder step not applicable"),
        )
    } else if cfg.route_evidence.len() == 0 {
        EvidenceSection::not_observable(
            String::from_str("routes declared but no [[route_evidence]] rows provided"),
        )
    } else {
        EvidenceSection::available(copy_route_evidence(&cfg.route_evidence))
    }
}

/// The engine's version, as recorded in outputs.
pub const ENGINE_VERSION: &'static str = "0.1.0";

/// The inputs whose hashes a provenance record lists after the
/// configuration: the flow, supply and response inputs that are set, in
/// that order.
pub open spec fn hashed_inputs(cfg: ProjectConfig) -> Seq<Seq<char>> {
    (match cfg.inputs.flows {
        Some(p) => seq![p@],
        None => Seq::empty(),
    }) + (match cfg.inputs.supply {
        Some(p) => seq![p@],
        None => Seq::empty(),
    }) + (match cfg.inputs.response {
        Some(p) => seq![p@],
        None => Seq::empty(),
    })
}

pub fn provenance_inputs(cfg: &ProjectConfig) -> (r: Vec<String>)
    ensures
        r@.map_values(|s: String| s@) == hashed_inputs(*cfg),
{
    let mut out: Vec<String> = Vec::new();
    match &cfg.inputs.flows {
        Some(p) => out.push(p.clone()),
        None => {},
    }
    match &cfg.inputs.supply {
        Some(p) => out.push(p.clone()),
        None => {},
    }
    match &cfg.inputs.response {
        Some(p) => out.push(p.clone()),
        None => {},
    }
    proof {
        assert(out@.map_values(|s: String| s@) =~= hashed_inputs(*cfg));
    }
    out
}

/// The metric definition an analysis reports under.
pub open spec fn metric_of(cfg: ProjectConfig) -> Seq<char> {
    if cfg.inputs.response is Some && cfg.routes@.len() > 0 {
        "market_response.v1+directional_flow.v2"@
    } else if cfg.inputs.response is Some {
        "market_response.v1"@
    } else {
        "directional_flow.v2"@
    }
}

/// The provenance record of an analysis: the configuration's and the
/// inputs' SHA-256 (`input_bytes` holds the contents of `provenance_inputs`,
/// in order), the metric, the command and the time it ran.
pub fn build_provenance(
    cfg: &ProjectConfig,
    command: &str,
    config_bytes: &[u8],
    input_bytes: &Vec<Vec<u8>>,
    computed_at_unix: i64,
) -> (r: ProvenanceRecord)
    requires
        input_bytes@.len() == hashed_inputs(*cfg).len(),
    ensures
        r.engine_version@ == ENGINE_VERSION@,
        r.project_id@ == cfg.project_id@,
        r.config_sha256@ == hex_of(sha256_of(config_bytes@)),
        r.input_hashes@.len() == input_bytes@.len() + 1,
        r.input_hashes@[0].path@ == "project.toml"@,
        r.input_hashes@[0].sha256@ == hex_of(sha256_of(config_bytes@)),
        forall|i: int|
            0 <= i < input_bytes@.len() ==> (#[trigger] r.input_hashes@[i + 1]).path@
                == hashed_inputs(*cfg)[i] && r.input_hashes@[i + 1].sha256@ == hex_of(
                sha256_of(input_bytes@[i]@),
            ),
        r.metric_definition_id@ == metric_of(*cfg),
        r.command@ == command@,
        r.computed_at_unix == computed_at_unix,
        r.source_description == (match cfg.data_provenance {
            Some(d) => d.source_description,
            None => None,
        }),
        r.data_extracted_at == (match cfg.data_provenance {
            Some(d) => d.data_extracted_at,
            None => None,
        }),
{
    let paths = provenance_inputs(cfg);
    let config_hash = hash_bytes(config_bytes);
    let mut input_hashes: Vec<InputHash> = Vec::new();
    input_hashes.push(InputHash { path: String::from_str("project.toml"), sha256: config_hash.clone() });
    let mut i: usize = 0;
    while i < input_bytes.len()
        invariant
            i <= input_bytes@.len(),
            paths@.len() == input_bytes@.len(),
            paths@.map_values(|s: String| s@) == hashed_inputs(*cfg),
            input_hashes@.len() == i + 1,
            input_hashes@[0].path@ == "project.toml"@,
            input_hashes@[0].sha256@ == hex_of(sha256_of(config_bytes@)),
            forall|j: int|
                0 <= j < i ==> (#[trigger] input_hashes@[j + 1]).path@ == hashed_inputs(*cfg)[j]
                    && input_hashes@[j + 1].sha256@ == hex_of(sha256_of(input_bytes@[j]@)),
        decreases input_bytes.len() - i,
    {
        proof {
            assert(paths@.map_values(|s: String| s@)[i as int] == paths@[i as int]@);
        }
        input_hashes.push(
            InputHash { path: paths[i].clone(), sha256: hash_bytes(input_bytes[i].as_slice()) },
        );
        i += 1;
    }
    let metric = if cfg.inputs.response.is_some() && cfg.routes.len() > 0 {
        String::from_str("market_response.v1+directional_flow.v2")
    } else if cfg.inputs.response.is_some() {
        String::from_str(RESPONSE_METRIC_ID)
    } else {
        String::from_str(FLOW_METRIC_ID)
    };
    let (source_description, data_extracted_at) = match &cfg.data_provenance {
        Some(d) => (crate::text::copy_opt_text(&d.source_description), crate::text::copy_opt_text(&d.data_extracted_at)),
        None => (None, None),
    };
    proof {
        reveal_strlit("market_response.v1");
        reveal_strlit("directional_flow.v2");
    }
    ProvenanceRecord {
        engine_version: String::from_str(ENGINE_VERSION),
        project_id: cfg.project_id.clone(),
        config_sha256: config_hash,
        input_hashes,
        metric_definition_id: metric,
        command: String::from_str(command),
        computed_at_unix,
        source_description,
        data_extracted_at,
    }
}

/// The rows read from a project's inputs: response rows (empty when the
/// section is not requested), flow rows (empty when not requested) and
/// supply rows (when a denominator needs them).
pub struct AnalysisInputs {
    pub response_rows: Vec<ResponseObservation>,
    pub flow_rows: Vec<RawDailyFlow>,
    pub supply_rows: Option<Vec<(AssetKey, Day, Dec)>>,
}

/// The assumption every analysis records.
pub open spec fn analysis_assumption() -> Seq<char> {
    "Engine outputs measurement sections only. Lack of flow evidence is not a migration verdict."@
}

/// Whether the market-response section of a project fails on its rows.
pub open spec fn response_fails(cfg: ProjectConfig, inputs: AnalysisInputs) -> bool {
    response_requested(cfg) && market_fails(cfg, inputs.response_rows@)
}

/// Whether the directional-flow section of a project fails on its rows.
pub open spec fn directional_fails(cfg: ProjectConfig, inputs: AnalysisInputs) -> bool {
    &&& cfg.routes@.len() > 0
    &&& cfg.inputs.flows is Some
    &&& flow_fails(cfg, inputs.flow_rows@, supply_view(inputs.supply_rows))
}

/// The gaps of an analysis after the `n0` declared caveats: those the
/// market-response section records (up to `m`), then those of the
/// directional-flow section (its route gaps, then a gap per undeclared route
/// id, in text order).
pub open spec fn analysis_gaps(cfg: ProjectConfig, inputs: AnalysisInputs, fin: Seq<CoverageGap>, m: int) -> bool {
    let n0 = cfg.coverage_declared@.len() as int;
    let fnotes = flow_notes(cfg, inputs.flow_rows@, supply_view(inputs.supply_rows), cfg.routes@.len() as int);
    &&& n0 <= m <= fin.len()
    &&& (response_requested(cfg) ==> exists|ghosts: Seq<Seq<char>>, keys: Seq<Seq<char>>|
        #[trigger] market_gaps(cfg, inputs.response_rows@, ghosts, keys, n0, fin.take(m)))
    &&& (!response_requested(cfg) ==> m == n0)
    &&& (cfg.routes@.len() > 0 && cfg.inputs.flows is Some ==> {
        &&& notes_match(fin.subrange(m, m + fnotes.len()), fnotes, cfg.windows@)
        &&& exists|extras: Seq<Seq<char>>|
            #[trigger] strictly_sorted(extras) && extras.to_set() == undeclared_route_ids(
                inputs.flow_rows@,
                cfg.routes@,
            ) && fin.len() == m + fnotes.len() + extras.len() && (forall|g: int|
                0 <= g < extras.len() ==> detected_gap(
                    #[trigger] fin[m + fnotes.len() + g],
                    MissingKind::RouteAttribution,
                    extras[g],
                    undeclared_route_reason(),
                ))
    })
    &&& (!(cfg.routes@.len() > 0 && cfg.inputs.flows is Some) ==> fin.len() == m)
}

/// Analyzes a validated project over the rows read from its inputs: the
/// declared caveats and the engine's assumption start the boundary, then the
/// market-response section, the route evidence and the directional flow are
/// computed in that order.
pub fn analyze_project(
    cfg: &ProjectConfig,
    inputs: &AnalysisInputs,
    provenance: ProvenanceRecord,
) -> (r: Result<AnalysisResult, AnalyzeError>)
    requires
        forall|i: int|
            0 <= i < cfg.windows@.len() ==> (#[trigger] cfg.windows@[i]).start.num()
                <= cfg.windows@[i].end.num(),
        response_requested(*cfg) ==> window_named_before(
            cfg.windows@,
            cfg.windows@.len() as int,
            cfg.response.unwrap().baseline_window@,
        ),
        inputs.flow_rows@.len() < 0xffff_ffff,
    ensures
        r is Err <==> (response_fails(*cfg, *inputs) || directional_fails(*cfg, *inputs)),
        response_fails(*cfg, *inputs) ==> (r matches Err(AnalyzeError::Response(_))),
        (!response_fails(*cfg, *inputs) && directional_fails(*cfg, *inputs)) ==> (r matches Err(
            AnalyzeError::Flow(_),
        )),
        r matches Err(AnalyzeError::Response(e)) ==> exists|keys: Seq<Seq<char>>, k: int, w: int|
            #[trigger] first_market_failure(*cfg, inputs.response_rows@, keys, k, w) && response_error_is(
                e,
                window_series(*cfg, inputs.response_rows@, keys[k], w),
            ),
        r matches Err(AnalyzeError::Flow(e)) ==> exists|k: int, w: int|
            #[trigger] first_flow_failure(*cfg, inputs.flow_rows@, supply_view(inputs.supply_rows), k, w)
                && flow_error_is(
                e,
                route_window_series(*cfg, inputs.flow_rows@, k, w),
                denominator_of(cfg.routes@[k], supply_view(inputs.supply_rows)),
            ),
        r matches Ok(res) ==> {
            &&& res.project_id@ == cfg.project_id@
            &&& res.engine_version@ == ENGINE_VERSION@
            &&& res.provenance == provenance
            &&& res.boundary.assumptions@.map_values(|s: String| s@) == seq![analysis_assumption()]
            &&& res.boundary.missing@.len() >= cfg.coverage_declared@.len()
            &&& res.boundary.missing@.take(cfg.coverage_declared@.len() as int)
                == cfg.coverage_declared@.map_values(
                |g: CoverageGap| with_source(g, GapSource::Declared),
            )
            &&& route_evidence_section(*cfg, res.route_evidence)
            &&& (cfg.inputs.response is None ==> (res.market_response matches EvidenceSection::NotDeclared {
                reason,
            } && reason@ == response_not_requested_reason()))
            &&& (cfg.inputs.response is Some && cfg.response is None ==> (res.market_response matches EvidenceSection::NotDeclared {
                reason,
            } && reason@ == response_config_missing_reason()))
            &&& (response_requested(*cfg) ==> (res.market_response is Available || (res.market_response matches EvidenceSection::NotObservable {
                reason,
            } && reason@ == no_response_rows_reason())))
            &&& (cfg.routes@.len() == 0 ==> (res.directional_flow matches EvidenceSection::NotDeclared {
                reason,
            } && reason@ == no_routes_flow_reason()))
            &&& (cfg.routes@.len() > 0 && cfg.inputs.flows is None ==> (res.directional_flow matches EvidenceSection::NotObservable {
                reason,
            } && reason@ == no_flows_input_reason()))
            &&& (cfg.routes@.len() > 0 && cfg.inputs.flows is Some ==> (res.directional_flow is Available || (res.directional_flow matches EvidenceSection::NotObservable {
                reason,
            } && reason@ == no_flow_rows_reason())))
            &&& exists|m: int| #[trigger] analysis_gaps(*cfg, *inputs, res.boundary.missing@, m)
            &&& (res.market_response is Available ==> res.market_response->data@.len() > 0)
            &&& (res.directional_flow is Available ==> res.directional_flow->data@.len() > 0)
            &&& (response_requested(*cfg) ==> exists|keys: Seq<Seq<char>>, origin: Seq<(int, int)>|
                #[trigger] market_data(
                    *cfg,
                    inputs.response_rows@,
                    keys,
                    origin,
                    available_rows(res.market_response),
                ))
            &&& (cfg.routes@.len() > 0 && cfg.inputs.flows is Some ==> exists|origin: Seq<(int, int)>|
                #[trigger] flow_data(
                    *cfg,
                    inputs.flow_rows@,
                    supply_view(inputs.supply_rows),
                    origin,
                    available_rows(res.directional_flow),
                ))
        },
{
    let mut boundary = EvidenceBoundary::new();
    let declared = crate::coverage::copy_gaps(&cfg.coverage_declared);
    boundary.merge_declared(declared);
    boundary.record_assumption(
        String::from_str(
            "Engine outputs measurement sections only. Lack of flow evidence is not a migration verdict.",
        ),
    );
    let ghost after_declared = boundary.missing@;
    let market_response = match market::compute_market_response(
        cfg,
        &inputs.response_rows,
        &mut boundary,
    ) {
        Ok(s) => s,
        Err(e) => {
            return Err(e);
        },
    };
    let route_evidence = compute_route_evidence(cfg);
    let ghost after_market = boundary.missing@;
    let ghost m = after_market.len() as int;
    let directional_flow = match flows::compute_directional_flow(
        cfg,
        &inputs.flow_rows,
        &inputs.supply_rows,
        &mut boundary,
    ) {
        Ok(s) => s,
        Err(e) => {
            return Err(e);
        },
    };
    proof {
        let n = cfg.coverage_declared@.len() as int;
        assert(boundary.missing@.take(n) =~= after_declared.take(n)) by {
            assert(boundary.missing@.take(after_market.len() as int) == after_market
                || cfg.routes@.len() == 0 || cfg.inputs.flows is None);
            assert(after_market.take(after_declared.len() as int) == after_declared
                || cfg.inputs.response is None || cfg.response is None);
        }
        assert(boundary.assumptions@.map_values(|s: String| s@) =~= seq![analysis_assumption()]);
        let fin = boundary.missing@;
        let flows_run = cfg.routes@.len() > 0 && cfg.inputs.flows is Some;
        if flows_run {
            assert(fin.take(m) =~= after_market);
        } else {
            assert(fin =~= after_market);
            assert(fin.take(m) =~= after_market);
        }
        if response_requested(*cfg) {
            let (ghosts, keys) = choose|ghosts: Seq<Seq<char>>, keys: Seq<Seq<char>>|
                #[trigger] market_gaps(*cfg, inputs.response_rows@, ghosts, keys, n, after_market);
            assert(market_gaps(*cfg, inputs.response_rows@, ghosts, keys, n, fin.take(m)));
        } else {
            assert(after_market == after_declared);
        }
        if flows_run {
            let fnotes = flow_notes(*cfg, inputs.flow_rows@, supply_view(inputs.supply_rows), cfg.routes@.len() as int);
            let extras = choose|extras: Seq<Seq<char>>|
                #[trigger] strictly_sorted(extras) && extras.to_set() == undeclared_route_ids(
                    inputs.flow_rows@,
                    cfg.routes@,
                ) && m + fnotes.len() + extras.len() == fin.len() && (forall|g: int|
                    0 <= g < extras.len() ==> detected_gap(
                        #[trigger] fin[fin.len() - extras.len() + g],
                        MissingKind::RouteAttribution,
                        extras[g],
                        undeclared_route_reason(),
                    ));
            assert forall|g: int| 0 <= g < extras.len() implies detected_gap(
                #[trigger] fin[m + fnotes.len() + g],
                MissingKind::RouteAttribution,
                extras[g],
                undeclared_route_reason(),
            ) by {
                assert(fin[fin.len() - extras.len() + g] == fin[m + fnotes.len() + g]);
            }
        }
        assert(analysis_gaps(*cfg, *inputs, fin, m));
    }
    let res = AnalysisResult {
        project_id: cfg.project_id.clone(),
        engine_version: String::from_str(ENGINE_VERSION),
        market_response,
        route_evidence,
        directional_flow,
        boundary,
        provenance,
    };
    proof {
        assert(analysis_gaps(*cfg, *inputs, res.boundary.missing@, m));
    }
    Ok(res)
}

} // verus!
