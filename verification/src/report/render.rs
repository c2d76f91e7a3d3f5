//! Text renderings of an analysis result, and its section-filtered views.
use crate::coverage::{missing_kind_label, CoverageGap, EvidenceBoundary, GapSource, MissingKind};
use crate::dec::{decimal_text, Dec};
use crate::evidence::EvidenceSection;
use crate::flow::FlowSeriesSummary;
use crate::report::AnalysisResult;
use crate::response::ResponseSeriesSummary;
use crate::route::{DocStatus, ExecStatus, LinkageClass, ObservedStatus, RouteEvidence};
use crate::text::{count_text, decimal_digits, text_is};
use vstd::prelude::*;
use vstd::string::*;

verus! {

broadcast use vstd::seq_lib::group_seq_properties;

/// Lines joined by newlines.
pub open spec fn joined(lines: Seq<Seq<char>>) -> Seq<char>
    decreases lines.len(),
{
    if lines.len() == 0 {
        Seq::empty()
    } else if lines.len() == 1 {
        lines[0]
    } else {
        joined(lines.drop_last()) + "\n"@ + lines.last()
    }
}

/// The texts of a list of strings.
pub open spec fn texts(v: Seq<String>) -> Seq<Seq<char>> {
    v.map_values(|s: String| s@)
}

pub fn join_lines(lines: &Vec<String>) -> (r: String)
    ensures
        r@ == joined(texts(lines@)),
{
    let mut out = String::new();
    let mut i: usize = 0;
    while i < lines.len()
        invariant
            i <= lines@.len(),
            out@ == joined(texts(lines@.take(i as int))),
        decreases lines.len() - i,
    {
        proof {
            assert(texts(lines@.take(i + 1)).drop_last() =~= texts(lines@.take(i as int)));
            assert(texts(lines@.take(i + 1)).last() == lines@[i as int]@);
        }
        if i == 0 {
            out = lines[i].clone();
        } else {
            out = out.concat("\n").concat(lines[i].as_str());
        }
        i += 1;
    }
    proof {
        assert(lines@.take(lines@.len() as int) =~= lines@);
    }
    out
}

/// A decimal as text, or `null` when absent.
pub open spec fn opt_text(v: Option<Dec>) -> Seq<char> {
    match v {
        Some(d) => decimal_text(d.mant(), d.scl()),
        None => "null"@,
    }
}

pub fn opt_dec(v: Option<Dec>) -> (r: String)
    ensures
        r@ == opt_text(v),
{
    match v {
        Some(d) => d.to_text(),
        None => String::from_str("null"),
    }
}

/// One line per market-response summary.
pub open spec fn response_row_text(s: ResponseSeriesSummary) -> Seq<char> {
    "  "@ + s.asset_key.0@ + " @ "@ + s.window_name@ + ": price_return="@ + opt_text(s.price_return)
        + " norm_vol="@ + opt_text(s.baseline_normalized_volume) + " observed/window="@
        + decimal_digits(s.observed_days as nat) + "/"@ + decimal_digits(s.window_days as nat)
}

pub fn format_response_rows(data: &Vec<ResponseSeriesSummary>) -> (r: Vec<String>)
    ensures
        texts(r@) == data@.map_values(|s: ResponseSeriesSummary| response_row_text(s)),
{
    let mut out: Vec<String> = Vec::new();
    let mut i: usize = 0;
    while i < data.len()
        invariant
            i <= data@.len(),
            texts(out@) == data@.take(i as int).map_values(
                |s: ResponseSeriesSummary| response_row_text(s),
            ),
        decreases data.len() - i,
    {
        let s = &data[i];
        let line = String::from_str("  ").concat(s.asset_key.as_str()).concat(" @ ").concat(
            s.window_name.as_str(),
        ).concat(": price_return=").concat(opt_dec(s.price_return).as_str()).concat(
            " norm_vol=",
        ).concat(opt_dec(s.baseline_normalized_volume).as_str()).concat(" observed/window=").concat(
            count_text(s.observed_days).as_str(),
        ).concat("/").concat(count_text(s.window_days).as_str());
        let ghost before = out@;
        out.push(line);
        proof {
            assert(texts(out@) =~= texts(before).push(response_row_text(data@[i as int])));
            assert(data@.take(i + 1) =~= data@.take(i as int).push(data@[i as int]));
        }
        proof {
            assert(texts(out@) =~= data@.take(i + 1).map_values(
                |s: ResponseSeriesSummary| response_row_text(s),
            ));
        }
        i += 1;
    }
    proof {
        assert(data@.take(data@.len() as int) =~= data@);
    }
    out
}

/// One line per directional-flow summary.
pub open spec fn flow_row_text(s: FlowSeriesSummary) -> Seq<char> {
    "  "@ + s.route_id@ + " @ "@ + s.window_name@ + ": net="@ + decimal_text(
        s.net_total.mant(),
        s.net_total.scl(),
    ) + " peak="@ + decimal_text(s.peak_cumulative_net.mant(), s.peak_cumulative_net.scl())
        + " trough="@ + decimal_text(s.trough_cumulative_net.mant(), s.trough_cumulative_net.scl())
        + " net/denom="@ + opt_text(s.net_over_denominator) + " observed/window="@ + decimal_digits(
        s.observed_days as nat,
    ) + "/"@ + decimal_digits(s.window_days as nat)
}

pub fn format_flow_rows(data: &Vec<FlowSeriesSummary>) -> (r: Vec<String>)
    ensures
        texts(r@) == data@.map_values(|s: FlowSeriesSummary| flow_row_text(s)),
{
    let mut out: Vec<String> = Vec::new();
    let mut i: usize = 0;
    while i < data.len()
        invariant
            i <= data@.len(),
            texts(out@) == data@.take(i as int).map_values(|s: FlowSeriesSummary| flow_row_text(s)),
        decreases data.len() - i,
    {
        let s = &data[i];
        let line = String::from_str("  ").concat(s.route_id.as_str()).concat(" @ ").concat(
            s.window_name.as_str(),
        ).concat(": net=").concat(s.net_total.to_text().as_str()).concat(" peak=").concat(
            s.peak_cumulative_net.to_text().as_str(),
        ).concat(" trough=").concat(s.trough_cumulative_net.to_text().as_str()).concat(
            " net/denom=",
        ).concat(opt_dec(s.net_over_denominator).as_str()).concat(" observed/window=").concat(
            count_text(s.observed_days).as_str(),
        ).concat("/").concat(count_text(s.window_days).as_str());
        let ghost before = out@;
        out.push(line);
        proof {
            assert(texts(out@) =~= texts(before).push(flow_row_text(data@[i as int])));
            assert(data@.take(i + 1) =~= data@.take(i as int).push(data@[i as int]));
            assert(texts(out@) =~= data@.take(i + 1).map_values(
                |s: FlowSeriesSummary| flow_row_text(s),
            ));
        }
        i += 1;
    }
    proof {
        assert(data@.take(data@.len() as int) =~= data@);
    }
    out
}

/// The names the statuses print under (their `Debug` forms).
pub open spec fn doc_label(d: DocStatus) -> Seq<char> {
    match d {
        DocStatus::IssuerNamed => "IssuerNamed"@,
        DocStatus::DocsMentioned => "DocsMentioned"@,
        DocStatus::Undocumented => "None"@,
        DocStatus::Unknown => "Unknown"@,
    }
}

pub open spec fn exec_label(e: ExecStatus) -> Seq<char> {
    match e {
        ExecStatus::Permissionless => "Permissionless"@,
        ExecStatus::Gated => "Gated"@,
        ExecStatus::Unknown => "Unknown"@,
    }
}

pub open spec fn observed_label(o: ObservedStatus) -> Seq<char> {
    match o {
        ObservedStatus::Yes => "Yes"@,
        ObservedStatus::NoInWindow => "NoInWindow"@,
        ObservedStatus::Unknown => "Unknown"@,
    }
}

pub open spec fn linkage_label(l: LinkageClass) -> Seq<char> {
    match l {
        LinkageClass::DirectSameTx => "DirectSameTx"@,
        LinkageClass::MintPairMatch => "MintPairMatch"@,
        LinkageClass::IssuerTwoLeg => "IssuerTwoLeg"@,
        LinkageClass::Unlinked => "Unlinked"@,
        LinkageClass::Unknown => "Unknown"@,
    }
}

fn doc_label_text(d: DocStatus) -> (r: &'static str)
    ensures
        r@ == doc_label(d),
{
    match d {
        DocStatus::IssuerNamed => "IssuerNamed",
        DocStatus::DocsMentioned => "DocsMentioned",
        DocStatus::Undocumented => "None",
        DocStatus::Unknown => "Unknown",
    }
}

fn exec_label_text(e: ExecStatus) -> (r: &'static str)
    ensures
        r@ == exec_label(e),
{
    match e {
        ExecStatus::Permissionless => "Permissionless",
        ExecStatus::Gated => "Gated",
        ExecStatus::Unknown => "Unknown",
    }
}

fn observed_label_text(o: ObservedStatus) -> (r: &'static str)
    ensures
        r@ == observed_label(o),
{
    match o {
        ObservedStatus::Yes => "Yes",
        ObservedStatus::NoInWindow => "NoInWindow",
        ObservedStatus::Unknown => "Unknown",
    }
}

fn linkage_label_text(l: LinkageClass) -> (r: &'static str)
    ensures
        r@ == linkage_label(l),
{
    match l {
        LinkageClass::DirectSameTx => "DirectSameTx",
        LinkageClass::MintPairMatch => "MintPairMatch",
        LinkageClass::IssuerTwoLeg => "IssuerTwoLeg",
        LinkageClass::Unlinked => "Unlinked",
        LinkageClass::Unknown => "Unknown",
    }
}

/// One line per route evidence row.
pub open spec fn route_row_text(e: RouteEvidence) -> Seq<char> {
    "  "@ + e.route_id@ + ": documented="@ + doc_label(e.documented) + " executable="@ + exec_label(
        e.technically_executable,
    ) + " observed="@ + observed_label(e.observed_on_chain) + " linkage="@ + linkage_label(
        e.linkage_class,
    )
}

pub fn format_route_rows(data: &Vec<RouteEvidence>) -> (r: Vec<String>)
    ensures
        texts(r@) == data@.map_values(|e: RouteEvidence| route_row_text(e)),
{
    let mut out: Vec<String> = Vec::new();
    let mut i: usize = 0;
    while i < data.len()
        invariant
            i <= data@.len(),
            texts(out@) == data@.take(i as int).map_values(|e: RouteEvidence| route_row_text(e)),
        decreases data.len() - i,
    {
        let e = &data[i];
        let line = String::from_str("  ").concat(e.route_id.as_str()).concat(": documented=").concat(
            doc_label_text(e.documented),
        ).concat(" executable=").concat(exec_label_text(e.technically_executable)).concat(
            " observed=",
        ).concat(observed_label_text(e.observed_on_chain)).concat(" linkage=").concat(
            linkage_label_text(e.linkage_class),
        );
        let ghost before = out@;
        out.push(line);
        proof {
            assert(texts(out@) =~= texts(before).push(route_row_text(data@[i as int])));
            assert(data@.take(i + 1) =~= data@.take(i as int).push(data@[i as int]));
            assert(texts(out@) =~= data@.take(i + 1).map_values(
                |e: RouteEvidence| route_row_text(e),
            ));
        }
        i += 1;
    }
    proof {
        assert(data@.take(data@.len() as int) =~= data@);
    }
    out
}

/// The evidence-boundary block: one line per gap (or a note that there is
/// none), then one line per assumption.
pub open spec fn boundary_lines(b: EvidenceBoundary) -> Seq<Seq<char>> {
    boundary_lines_of(b.missing@, b.assumptions@)
}

pub fn format_boundary_block(boundary: &EvidenceBoundary) -> (r: String)
    ensures
        r@ == joined(boundary_lines(*boundary)),
{
    let mut lines: Vec<String> = Vec::new();
    lines.push(String::from_str("evidence boundary:"));
    if boundary.missing.len() == 0 {
        lines.push(String::from_str("  (no coverage gaps recorded)"));
    } else {
        let mut i: usize = 0;
        while i < boundary.missing.len()
            invariant
                i <= boundary.missing@.len(),
                texts(lines@) == seq!["evidence boundary:"@] + boundary.missing@.take(i as int).map_values(
                    |g: CoverageGap| "  - "@ + missing_kind_label(g.kind) + "/"@ + g.scope@ + ": "@
                        + g.reason@,
                ),
            decreases boundary.missing.len() - i,
        {
            let g = &boundary.missing[i];
            let ghost before = lines@;
            lines.push(
                String::from_str("  - ").concat(g.kind.label().as_str()).concat("/").concat(
                    g.scope.as_str(),
                ).concat(": ").concat(g.reason.as_str()),
            );
            proof {
                assert(boundary.missing@.take(i + 1) =~= boundary.missing@.take(i as int).push(
                    boundary.missing@[i as int],
                ));
                assert(texts(lines@) =~= texts(before).push(lines@.last()@));
                assert(texts(lines@) =~= seq!["evidence boundary:"@] + boundary.missing@.take(
                    i + 1,
                ).map_values(
                    |g: CoverageGap| "  - "@ + missing_kind_label(g.kind) + "/"@ + g.scope@ + ": "@
                        + g.reason@,
                ));
            }
            i += 1;
        }
        proof {
            assert(boundary.missing@.take(boundary.missing@.len() as int) =~= boundary.missing@);
        }
    }
    let ghost head = texts(lines@);
    let mut j: usize = 0;
    while j < boundary.assumptions.len()
        invariant
            j <= boundary.assumptions@.len(),
            texts(lines@) == head + boundary.assumptions@.take(j as int).map_values(
                |a: String| "  assumption: "@ + a@,
            ),
        decreases boundary.assumptions.len() - j,
    {
        let ghost before = lines@;
        lines.push(String::from_str("  assumption: ").concat(boundary.assumptions[j].as_str()));
        proof {
            assert(boundary.assumptions@.take(j + 1) =~= boundary.assumptions@.take(j as int).push(
                boundary.assumptions@[j as int],
            ));
            assert(texts(lines@) =~= texts(before).push(lines@.last()@));
            assert(texts(lines@) =~= head + boundary.assumptions@.take(j + 1).map_values(
                |a: String| "  assumption: "@ + a@,
            ));
        }
        j += 1;
    }
    proof {
        assert(boundary.assumptions@.take(boundary.assumptions@.len() as int)
            =~= boundary.assumptions@);
        assert(texts(lines@) =~= boundary_lines(*boundary));
    }
    join_lines(&lines)
}

/// A section as text: its name and availability, then (when available)
/// its rows; each block ends with a newline.
pub open spec fn section_text<T>(name: Seq<char>, section: EvidenceSection<T>, rows: Seq<Seq<char>>) -> Seq<
    char,
> {
    match section {
        EvidenceSection::Available { .. } => joined(seq![name + ": available"@] + rows) + "\n"@,
        EvidenceSection::NotDeclared { reason } => name + ": not_declared — "@ + reason@ + "\n"@,
        EvidenceSection::NotObservable { reason } => name + ": not_observable — "@ + reason@
            + "\n"@,
    }
}

/// Renders a section, its rows rendered by `fmt` when it is available.
pub fn format_section<T, F: Fn(&T) -> Vec<String>>(
    name: &str,
    section: &EvidenceSection<T>,
    fmt: F,
) -> (r: String)
    requires
        forall|d: &T| fmt.requires((d,)),
    ensures
        match section {
            EvidenceSection::Available { data } => exists|rows: Vec<String>|
                fmt.ensures((data,), rows) && r@ == #[trigger] section_text(name@, *section, texts(rows@)),
            _ => r@ == section_text(name@, *section, Seq::empty()),
        },
{
    match section {
        EvidenceSection::Available { data } => {
            let rows = fmt(data);
            let mut lines: Vec<String> = Vec::new();
            lines.push(String::from_str(name).concat(": available"));
            let ghost head = lines@;
            let mut i: usize = 0;
            while i < rows.len()
                invariant
                    i <= rows@.len(),
                    head.len() == 1,
                    lines@ == head + rows@.take(i as int),
                decreases rows.len() - i,
            {
                lines.push(rows[i].clone());
                proof {
                    assert(rows@.take(i + 1) =~= rows@.take(i as int).push(rows@[i as int]));
                    assert(lines@ =~= head + rows@.take(i + 1));
                }
                i += 1;
            }
            proof {
                assert(rows@.take(rows@.len() as int) =~= rows@);
                assert(texts(lines@) =~= seq![name@ + ": available"@] + texts(rows@));
            }
            let r = join_lines(&lines).concat("\n");
            proof {
                assert(r@ == section_text(name@, *section, texts(rows@)));
            }
            r
        },
        EvidenceSection::NotDeclared { reason } => String::from_str(name).concat(
            ": not_declared — ",
        ).concat(reason.as_str()).concat("\n"),
        EvidenceSection::NotObservable { reason } => String::from_str(name).concat(
            ": not_observable — ",
        ).concat(reason.as_str()).concat("\n"),
    }
}

/// The rows of the market-response section as text.
pub open spec fn response_rows_of(section: EvidenceSection<Vec<ResponseSeriesSummary>>) -> Seq<Seq<char>> {
    match section {
        EvidenceSection::Available { data } => data@.map_values(
            |s: ResponseSeriesSummary| response_row_text(s),
        ),
        _ => Seq::empty(),
    }
}

pub open spec fn route_rows_of(section: EvidenceSection<Vec<RouteEvidence>>) -> Seq<Seq<char>> {
    match section {
        EvidenceSection::Available { data } => data@.map_values(|e: RouteEvidence| route_row_text(e)),
        _ => Seq::empty(),
    }
}

pub open spec fn flow_rows_of(section: EvidenceSection<Vec<FlowSeriesSummary>>) -> Seq<Seq<char>> {
    match section {
        EvidenceSection::Available { data } => data@.map_values(|s: FlowSeriesSummary| flow_row_text(s)),
        _ => Seq::empty(),
    }
}

pub fn format_response_section(section: &EvidenceSection<Vec<ResponseSeriesSummary>>) -> (r: String)
    ensures
        r@ == section_text("market_response"@, *section, response_rows_of(*section)),
{
    let fmt = |d: &Vec<ResponseSeriesSummary>| -> (rows: Vec<String>)
        ensures
            texts(rows@) == d@.map_values(|s: ResponseSeriesSummary| response_row_text(s)),
        { format_response_rows(d) };
    format_section("market_response", section, fmt)
}

pub fn format_route_section(section: &EvidenceSection<Vec<RouteEvidence>>) -> (r: String)
    ensures
        r@ == section_text("route_evidence"@, *section, route_rows_of(*section)),
{
    let fmt = |d: &Vec<RouteEvidence>| -> (rows: Vec<String>)
        ensures
            texts(rows@) == d@.map_values(|e: RouteEvidence| route_row_text(e)),
        { format_route_rows(d) };
    format_section("route_evidence", section, fmt)
}

pub fn format_flow_section(section: &EvidenceSection<Vec<FlowSeriesSummary>>) -> (r: String)
    ensures
        r@ == section_text("directional_flow"@, *section, flow_rows_of(*section)),
{
    let fmt = |d: &Vec<FlowSeriesSummary>| -> (rows: Vec<String>)
        ensures
            texts(rows@) == d@.map_values(|s: FlowSeriesSummary| flow_row_text(s)),
        { format_flow_rows(d) };
    format_section("directional_flow", section, fmt)
}

/// Which section's detected gaps a view keeps.
#[derive(Debug, Clone, Copy, PartialEq, Eq, Structural)]
pub enum GapFilter {
    Response,
    Flow,
}

/// Gaps produced by the market-response section.
pub open spec fn response_gap(g: CoverageGap) -> bool {
    match g.kind {
        MissingKind::Price => true,
        MissingKind::Other(s) => s@ == "response_coverage"@ || s@ == "undeclared_response_asset"@,
        _ => false,
    }
}

/// Gaps produced by the directional-flow section.
pub open spec fn flow_gap(g: CoverageGap) -> bool {
    g.kind == MissingKind::RouteAttribution || g.kind == MissingKind::Supply
}

pub fn is_response_gap(gap: &CoverageGap) -> (r: bool)
    ensures
        r == response_gap(*gap),
{
    match &gap.kind {
        MissingKind::Price => true,
        MissingKind::Other(s) => text_is(s, "response_coverage") || text_is(
            s,
            "undeclared_response_asset",
        ),
        _ => false,
    }
}

pub fn is_flow_gap(gap: &CoverageGap) -> (r: bool)
    ensures
        r == flow_gap(*gap),
{
    match &gap.kind {
        MissingKind::RouteAttribution => true,
        MissingKind::Supply => true,
        _ => false,
    }
}

/// Whether a view filtered by `filter` keeps gap `g`: author-declared
/// caveats always, detected gaps when the section produced them.
pub open spec fn keeps(filter: GapFilter) -> spec_fn(CoverageGap) -> bool {
    |g: CoverageGap|
        match g.source {
            GapSource::Declared => true,
            GapSource::Detected => match filter {
                GapFilter::Response => response_gap(g),
                GapFilter::Flow => flow_gap(g),
            },
        }
}

/// The boundary with only the gaps a section's view keeps; assumptions unchanged.
pub fn filter_boundary(boundary: &EvidenceBoundary, filter: GapFilter) -> (r: EvidenceBoundary)
    ensures
        r.missing@ == boundary.missing@.filter(keeps(filter)),
        r.assumptions@ == boundary.assumptions@,
{
    let mut missing: Vec<CoverageGap> = Vec::new();
    let mut i: usize = 0;
    while i < boundary.missing.len()
        invariant
            i <= boundary.missing@.len(),
            missing@ == boundary.missing@.take(i as int).filter(keeps(filter)),
        decreases boundary.missing.len() - i,
    {
        let g = &boundary.missing[i];
        proof {
            assert(boundary.missing@.take(i + 1) == boundary.missing@.take(i as int).push(*g));
            boundary.missing@.take(i as int).lemma_filter_push(*g, keeps(filter));
        }
        let keep = match g.source {
            GapSource::Declared => true,
            GapSource::Detected => match filter {
                GapFilter::Response => is_response_gap(g),
                GapFilter::Flow => is_flow_gap(g),
            },
        };
        if keep {
            missing.push(g.clone());
        }
        i += 1;
    }
    proof {
        assert(boundary.missing@.take(boundary.missing@.len() as int) == boundary.missing@);
    }
    let assumptions = boundary.assumptions.clone();
    proof {
        assert(assumptions@ =~= boundary.assumptions@);
    }
    EvidenceBoundary { missing, assumptions }
}

/// Author-declared caveats.
pub open spec fn declared_gap() -> spec_fn(CoverageGap) -> bool {
    |g: CoverageGap| g.source == GapSource::Declared
}

/// Filtering by a wider test, then by a narrower one, is filtering by the
/// narrower one.
proof fn lemma_filter_narrower<T>(s: Seq<T>, wide: spec_fn(T) -> bool, narrow: spec_fn(T) -> bool)
    requires
        forall|x: T| #[trigger] narrow(x) ==> wide(x),
    ensures
        s.filter(wide).filter(narrow) == s.filter(narrow),
    decreases s.len(),
{
    if s.len() == 0 {
        reveal(Seq::filter);
    } else {
        let t = s.drop_last();
        let x = s.last();
        lemma_filter_narrower(t, wide, narrow);
        assert(s == t.push(x));
        t.lemma_filter_push(x, wide);
        t.lemma_filter_push(x, narrow);
        if wide(x) {
            t.filter(wide).lemma_filter_push(x, narrow);
        }
    }
}

/// A section view shows every author-declared caveat of the analysis, in the
/// order the analysis holds them, whichever section it is the view of.
pub proof fn law_views_keep_declared_gaps(boundary: EvidenceBoundary, filter: GapFilter)
    ensures
        boundary.missing@.filter(keeps(filter)).filter(declared_gap()) == boundary.missing@.filter(
            declared_gap(),
        ),
{
    lemma_filter_narrower(boundary.missing@, keeps(filter), declared_gap());
}

/// Filtering a boundary a second time for the same section changes nothing.
pub proof fn law_view_filter_idempotent(boundary: EvidenceBoundary, filter: GapFilter)
    ensures
        boundary.missing@.filter(keeps(filter)).filter(keeps(filter)) == boundary.missing@.filter(
            keeps(filter),
        ),
{
    lemma_filter_narrower(boundary.missing@, keeps(filter), keeps(filter));
}

/// A view shows only gaps the analysis recorded.
pub proof fn law_view_gaps_come_from_analysis(boundary: EvidenceBoundary, filter: GapFilter)
    ensures
        forall|i: int|
            0 <= i < boundary.missing@.filter(keeps(filter)).len() ==> boundary.missing@.contains(
                #[trigger] boundary.missing@.filter(keeps(filter))[i],
            ),
{
    let kept = boundary.missing@.filter(keeps(filter));
    assert forall|i: int| 0 <= i < kept.len() implies boundary.missing@.contains(#[trigger] kept[i]) by {
        assert(kept.contains(kept[i]));
        boundary.missing@.lemma_filter_contains_rev(keeps(filter), kept[i]);
    }
}

/// The market-response view and the directional-flow view share no detected
/// gap: only author-declared caveats appear in both.
pub proof fn law_views_keep_sections_apart(g: CoverageGap)
    ensures
        keeps(GapFilter::Response)(g) && keeps(GapFilter::Flow)(g) ==> g.source == GapSource::Declared,
{
}

/// The text of the whole analysis: header lines, the three sections, the
/// evidence boundary.
pub open spec fn summary_text(result: AnalysisResult) -> Seq<char> {
    joined(
        seq![
            "project: "@ + result.project_id@,
            "engine: "@ + result.engine_version@,
            "metric: "@ + result.provenance.metric_definition_id@,
            Seq::empty(),
            section_text("market_response"@, result.market_response, response_rows_of(result.market_response)),
            section_text("route_evidence"@, result.route_evidence, route_rows_of(result.route_evidence)),
            section_text("directional_flow"@, result.directional_flow, flow_rows_of(result.directional_flow)),
            joined(boundary_lines(result.boundary)),
        ],
    )
}

pub fn format_summary(result: &AnalysisResult) -> (r: String)
    ensures
        r@ == summary_text(*result),
{
    let mut lines: Vec<String> = Vec::new();
    lines.push(String::from_str("project: ").concat(result.project_id.as_str()));
    lines.push(String::from_str("engine: ").concat(result.engine_version.as_str()));
    lines.push(
        String::from_str("metric: ").concat(result.provenance.metric_definition_id.as_str()),
    );
    lines.push(String::new());
    lines.push(format_response_section(&result.market_response));
    lines.push(format_route_section(&result.route_evidence));
    lines.push(format_flow_section(&result.directional_flow));
    lines.push(format_boundary_block(&result.boundary));
    proof {
        assert(texts(lines@) =~= seq![
            "project: "@ + result.project_id@,
            "engine: "@ + result.engine_version@,
            "metric: "@ + result.provenance.metric_definition_id@,
            Seq::empty(),
            section_text("market_response"@, result.market_response, response_rows_of(result.market_response)),
            section_text("route_evidence"@, result.route_evidence, route_rows_of(result.route_evidence)),
            section_text("directional_flow"@, result.directional_flow, flow_rows_of(result.directional_flow)),
            joined(boundary_lines(result.boundary)),
        ]);
    }
    join_lines(&lines)
}

/// The boundary block's lines for the given gaps and assumptions.
pub open spec fn boundary_lines_of(missing: Seq<CoverageGap>, assumptions: Seq<String>) -> Seq<Seq<char>> {
    seq!["evidence boundary:"@] + (if missing.len() == 0 {
        seq!["  (no coverage gaps recorded)"@]
    } else {
        missing.map_values(
            |g: CoverageGap| "  - "@ + missing_kind_label(g.kind) + "/"@ + g.scope@ + ": "@ + g.reason@,
        )
    }) + assumptions.map_values(|a: String| "  assumption: "@ + a@)
}

/// `respond` summary: market-response section + response-related gaps.
pub fn format_respond_summary(result: &AnalysisResult) -> (r: String)
    ensures
        r@ == section_text(
            "market_response"@,
            result.market_response,
            response_rows_of(result.market_response),
        ) + "\n"@ + joined(
            boundary_lines_of(
                result.boundary.missing@.filter(keeps(GapFilter::Response)),
                result.boundary.assumptions@,
            ),
        ),
{
    let filtered = filter_boundary(&result.boundary, GapFilter::Response);
    let section = format_response_section(&result.market_response);
    let block = format_boundary_block(&filtered);
    section.concat("\n").concat(block.as_str())
}

/// `flows` summary: directional-flow section + flow-related gaps.
pub fn format_flows_summary(result: &AnalysisResult) -> (r: String)
    ensures
        r@ == section_text(
            "directional_flow"@,
            result.directional_flow,
            flow_rows_of(result.directional_flow),
        ) + "\n"@ + joined(
            boundary_lines_of(
                result.boundary.missing@.filter(keeps(GapFilter::Flow)),
                result.boundary.assumptions@,
            ),
        ),
{
    let filtered = filter_boundary(&result.boundary, GapFilter::Flow);
    let section = format_flow_section(&result.directional_flow);
    let block = format_boundary_block(&filtered);
    section.concat("\n").concat(block.as_str())
}

/// Machine-readable single-section view that keeps coverage gaps visible.
#[derive(Debug, PartialEq, Eq)]
pub struct SectionView<T> {
    pub section: EvidenceSection<T>,
    pub boundary: EvidenceBoundary,
}

fn copy_response_section(section: &EvidenceSection<Vec<ResponseSeriesSummary>>) -> (r: EvidenceSection<
    Vec<ResponseSeriesSummary>,
>)
    ensures
        !(section is Available) ==> r == *section,
        section is Available ==> (r is Available && r->data@ == section->data@),
{
    match section {
        EvidenceSection::Available { data } => {
            let copy = data.clone();
            proof {
                assert(copy@ =~= data@);
            }
            EvidenceSection::Available { data: copy }
        },
        EvidenceSection::NotDeclared { reason } => EvidenceSection::NotDeclared {
            reason: reason.clone(),
        },
        EvidenceSection::NotObservable { reason } => EvidenceSection::NotObservable {
            reason: reason.clone(),
        },
    }
}

fn copy_flow_section(section: &EvidenceSection<Vec<FlowSeriesSummary>>) -> (r: EvidenceSection<
    Vec<FlowSeriesSummary>,
>)
    ensures
        !(section is Available) ==> r == *section,
        section is Available ==> (r is Available && r->data@.len() == section->data@.len()
            && forall|i: int|
            0 <= i < r->data@.len() ==> crate::flow::same_flow_summary(
                #[trigger] r->data@[i],
                section->data@[i],
            )),
{
    match section {
        EvidenceSection::Available { data } => {
            let mut copy: Vec<FlowSeriesSummary> = Vec::new();
            let mut i: usize = 0;
            while i < data.len()
                invariant
                    i <= data@.len(),
                    copy@.len() == i,
                    forall|j: int|
                        0 <= j < i ==> crate::flow::same_flow_summary(#[trigger] copy@[j], data@[j]),
                decreases data.len() - i,
            {
                copy.push(data[i].clone());
                i += 1;
            }
            EvidenceSection::Available { data: copy }
        },
        EvidenceSection::NotDeclared { reason } => EvidenceSection::NotDeclared {
            reason: reason.clone(),
        },
        EvidenceSection::NotObservable { reason } => EvidenceSection::NotObservable {
            reason: reason.clone(),
        },
    }
}

/// The market-response section with the gaps its view keeps.
pub fn respond_view(result: &AnalysisResult) -> (r: SectionView<Vec<ResponseSeriesSummary>>)
    ensures
        !(result.market_response is Available) ==> r.section == result.market_response,
        result.market_response is Available ==> (r.section is Available && r.section->data@
            == result.market_response->data@),
        r.boundary.missing@ == result.boundary.missing@.filter(keeps(GapFilter::Response)),
        r.boundary.assumptions@ == result.boundary.assumptions@,
{
    SectionView {
        section: copy_response_section(&result.market_response),
        boundary: filter_boundary(&result.boundary, GapFilter::Response),
    }
}

/// The directional-flow section with the gaps its view keeps.
pub fn flows_view(result: &AnalysisResult) -> (r: SectionView<Vec<FlowSeriesSummary>>)
    ensures
        !(result.directional_flow is Available) ==> r.section == result.directional_flow,
        result.directional_flow is Available ==> (r.section is Available && r.section->data@.len()
            == result.directional_flow->data@.len() && forall|i: int|
            0 <= i < r.section->data@.len() ==> crate::flow::same_flow_summary(
                #[trigger] r.section->data@[i],
                result.directional_flow->data@[i],
            )),
        r.boundary.missing@ == result.boundary.missing@.filter(keeps(GapFilter::Flow)),
        r.boundary.assumptions@ == result.boundary.assumptions@,
{
    SectionView {
        section: copy_flow_section(&result.directional_flow),
        boundary: filter_boundary(&result.boundary, GapFilter::Flow),
    }
}

/// Compact ladder row for article-facing comparisons.
#[derive(Debug, PartialEq, Eq)]
pub struct LadderRow {
    pub project_id: String,
    pub market_response: String,
    pub route_evidence: String,
    pub directional_flow: String,
    pub claim_boundary: String,
}

/// `observed`, `not_declared` or `not_observable`.
pub open spec fn section_label_of<T>(section: EvidenceSection<T>) -> Seq<char> {
    match section {
        EvidenceSection::Available { .. } => "observed"@,
        EvidenceSection::NotDeclared { .. } => "not_declared"@,
        EvidenceSection::NotObservable { .. } => "not_observable"@,
    }
}

pub fn section_label<T>(section: &EvidenceSection<T>) -> (r: String)
    ensures
        r@ == section_label_of(*section),
{
    match section {
        EvidenceSection::Available { .. } => String::from_str("observed"),
        EvidenceSection::NotDeclared { .. } => String::from_str("not_declared"),
        EvidenceSection::NotObservable { .. } => String::from_str("not_observable"),
    }
}

/// What the available sections allow a reader to claim.
pub open spec fn claim_of(response: bool, route: bool, flow: bool) -> Seq<char> {
    if response && route && flow {
        "response + route + directional flow measurable; no migration label emitted"@
    } else if response && !flow {
        "response only; directional flow not identified"@
    } else if !response && flow {
        "directional flow measurable; response not requested"@
    } else if response && !route && flow {
        "response + flow measurable; route evidence incomplete"@
    } else {
        "insufficient declared evidence for linked-flow claims"@
    }
}

/// Activity is never read as migration: unless the directional-flow section
/// is available, the claim boundary makes no flow claim; it says that the
/// flow is not identified, or that the evidence is insufficient for
/// linked-flow claims.
pub proof fn law_no_flow_claim_without_flow(response: bool, route: bool)
    ensures
        claim_of(response, route, false) == "response only; directional flow not identified"@
            || claim_of(response, route, false) == "insufficient declared evidence for linked-flow claims"@,
        response ==> claim_of(response, route, false) == "response only; directional flow not identified"@,
{
}

/// The claim follows the ladder: with the market-response, route-evidence
/// and directional-flow sections all available, it is the full-ladder text,
/// which still emits no migration label; the text saying route evidence is
/// incomplete comes only when route evidence is not available; and a flow
/// claim needs an available flow section.
pub proof fn law_claim_follows_ladder(response: bool, route: bool, flow: bool)
    ensures
        claim_of(true, true, true)
            == "response + route + directional flow measurable; no migration label emitted"@,
        claim_of(response, route, flow) == "response + flow measurable; route evidence incomplete"@
            ==> response && !route && flow,
        claim_of(response, route, flow) == "directional flow measurable; response not requested"@
            ==> !response && flow,
{
    reveal_strlit("response + route + directional flow measurable; no migration label emitted");
    reveal_strlit("response only; directional flow not identified");
    reveal_strlit("directional flow measurable; response not requested");
    reveal_strlit("response + flow measurable; route evidence incomplete");
    reveal_strlit("insufficient declared evidence for linked-flow claims");
    let full = "response + route + directional flow measurable; no migration label emitted"@;
    let only = "response only; directional flow not identified"@;
    let nresp = "directional flow measurable; response not requested"@;
    let incomplete = "response + flow measurable; route evidence incomplete"@;
    let insufficient = "insufficient declared evidence for linked-flow claims"@;
    assert(full[11] != incomplete[11]);
    assert(only[9] != incomplete[9]);
    assert(nresp[0] != incomplete[0]);
    assert(insufficient[0] != incomplete[0]);
    assert(full[0] != nresp[0]);
    assert(only[0] != nresp[0]);
    assert(insufficient[0] != nresp[0]);
    assert(incomplete[0] != nresp[0]);
}

pub fn claim_boundary(result: &AnalysisResult) -> (r: String)
    ensures
        r@ == claim_of(
            result.market_response is Available,
            result.route_evidence is Available,
            result.directional_flow is Available,
        ),
        (result.market_response is Available && result.route_evidence is Available
            && result.directional_flow is Available) ==> r@
            == "response + route + directional flow measurable; no migration label emitted"@,
        r@ == "response + flow measurable; route evidence incomplete"@ ==> !(
        result.route_evidence is Available),
{
    proof {
        law_claim_follows_ladder(
            result.market_response is Available,
            result.route_evidence is Available,
            result.directional_flow is Available,
        );
    }
    let response = result.market_response.is_available();
    let route = result.route_evidence.is_available();
    let flow = result.directional_flow.is_available();
    if response && route && flow {
        String::from_str("response + route + directional flow measurable; no migration label emitted")
    } else if response && !flow {
        String::from_str("response only; directional flow not identified")
    } else if !response && flow {
        String::from_str("directional flow measurable; response not requested")
    } else if response && !route && flow {
        String::from_str("response + flow measurable; route evidence incomplete")
    } else {
        String::from_str("insufficient declared evidence for linked-flow claims")
    }
}

/// The ladder row of an analysis.
pub fn ladder_status(result: &AnalysisResult) -> (r: LadderRow)
    ensures
        r.project_id@ == result.project_id@,
        r.market_response@ == section_label_of(result.market_response),
        r.route_evidence@ == section_label_of(result.route_evidence),
        r.directional_flow@ == section_label_of(result.directional_flow),
        r.claim_boundary@ == claim_of(
            result.market_response is Available,
            result.route_evidence is Available,
            result.directional_flow is Available,
        ),
        (result.market_response is Available && result.route_evidence is Available
            && result.directional_flow is Available) ==> r.claim_boundary@
            == "response + route + directional flow measurable; no migration label emitted"@,
        r.claim_boundary@ == "response + flow measurable; route evidence incomplete"@ ==> !(
        result.route_evidence is Available),
{
    LadderRow {
        project_id: result.project_id.clone(),
        market_response: section_label(&result.market_response),
        route_evidence: section_label(&result.route_evidence),
        directional_flow: section_label(&result.directional_flow),
        claim_boundary: claim_boundary(result),
    }
}

} // verus!
