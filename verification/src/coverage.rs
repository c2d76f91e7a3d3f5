//! Coverage gaps and evidence boundaries.
//!
//! Missing observations stay missing. They are never silently treated as zero.
use vstd::prelude::*;
use vstd::string::*;

verus! {

#[derive(Debug, PartialEq, Eq)]
pub enum MissingKind {
    OffChainVenue,
    HistoricalDepth,
    RouteAttribution,
    Supply,
    TraderIntent,
    ActorLinkage,
    Price,
    Other(String),
}

impl Clone for MissingKind {
    fn clone(&self) -> (r: Self)
        ensures
            r == *self,
    {
        match self {
            MissingKind::OffChainVenue => MissingKind::OffChainVenue,
            MissingKind::HistoricalDepth => MissingKind::HistoricalDepth,
            MissingKind::RouteAttribution => MissingKind::RouteAttribution,
            MissingKind::Supply => MissingKind::Supply,
            MissingKind::TraderIntent => MissingKind::TraderIntent,
            MissingKind::ActorLinkage => MissingKind::ActorLinkage,
            MissingKind::Price => MissingKind::Price,
            MissingKind::Other(s) => MissingKind::Other(s.clone()),
        }
    }
}

/// The snake-case label of a kind; `Other` shows its own text.
pub open spec fn missing_kind_label(k: MissingKind) -> Seq<char> {
    match k {
        MissingKind::OffChainVenue => "off_chain_venue"@,
        MissingKind::HistoricalDepth => "historical_depth"@,
        MissingKind::RouteAttribution => "route_attribution"@,
        MissingKind::Supply => "supply"@,
        MissingKind::TraderIntent => "trader_intent"@,
        MissingKind::ActorLinkage => "actor_linkage"@,
        MissingKind::Price => "price"@,
        MissingKind::Other(s) => s@,
    }
}

impl MissingKind {
    /// The label used in text output.
    pub fn label(&self) -> (r: String)
        ensures
            r@ == missing_kind_label(*self),
    {
        match self {
            MissingKind::OffChainVenue => String::from_str("off_chain_venue"),
            MissingKind::HistoricalDepth => String::from_str("historical_depth"),
            MissingKind::RouteAttribution => String::from_str("route_attribution"),
            MissingKind::Supply => String::from_str("supply"),
            MissingKind::TraderIntent => String::from_str("trader_intent"),
            MissingKind::ActorLinkage => String::from_str("actor_linkage"),
            MissingKind::Price => String::from_str("price"),
            MissingKind::Other(s) => s.clone(),
        }
    }
}

/// Whether a gap was authored in config or detected at runtime.
#[derive(Debug, Clone, Copy, PartialEq, Eq, Structural)]
pub enum GapSource {
    /// From `[[coverage_declared]]`. Always shown on section outputs.
    Declared,
    /// Produced by response/flow accounting. Filtered by section relevance.
    Detected,
}

#[derive(Debug, PartialEq, Eq)]
pub struct CoverageGap {
    pub kind: MissingKind,
    pub scope: String,
    pub reason: String,
    pub source: GapSource,
}

impl Clone for CoverageGap {
    fn clone(&self) -> (r: Self)
        ensures
            r == *self,
    {
        CoverageGap {
            kind: self.kind.clone(),
            scope: self.scope.clone(),
            reason: self.reason.clone(),
            source: self.source,
        }
    }
}

impl CoverageGap {
    /// A gap found by the engine.
    pub fn new(kind: MissingKind, scope: String, reason: String) -> (r: Self)
        ensures
            r == (CoverageGap { kind, scope, reason, source: GapSource::Detected }),
    {
        CoverageGap { kind, scope, reason, source: GapSource::Detected }
    }
}

/// `gap` with its source set to `source`.
pub open spec fn with_source(gap: CoverageGap, source: GapSource) -> CoverageGap {
    CoverageGap { source, ..gap }
}

#[derive(Debug, PartialEq, Eq)]
pub struct EvidenceBoundary {
    pub missing: Vec<CoverageGap>,
    pub assumptions: Vec<String>,
}

impl Clone for EvidenceBoundary {
    fn clone(&self) -> (r: Self)
        ensures
            r.missing@ == self.missing@,
            r.assumptions@ == self.assumptions@,
    {
        let missing = self.missing.clone();
        let assumptions = self.assumptions.clone();
        proof {
            assert(missing@ =~= self.missing@);
            assert(assumptions@ =~= self.assumptions@);
        }
        EvidenceBoundary { missing, assumptions }
    }
}

impl EvidenceBoundary {
    /// A boundary with no gaps and no assumptions.
    pub fn new() -> (r: Self)
        ensures
            r.missing@ == Seq::<CoverageGap>::empty(),
            r.assumptions@ == Seq::<String>::empty(),
    {
        EvidenceBoundary { missing: Vec::new(), assumptions: Vec::new() }
    }

    /// Appends author-declared gaps, each marked `Declared`.
    pub fn merge_declared(&mut self, gaps: Vec<CoverageGap>)
        ensures
            final(self).missing@ == old(self).missing@ + gaps@.map_values(
                |g: CoverageGap| with_source(g, GapSource::Declared),
            ),
            final(self).assumptions@ == old(self).assumptions@,
    {
        let ghost start = self.missing@;
        let mut i: usize = 0;
        while i < gaps.len()
            invariant
                i <= gaps.len(),
                self.missing@ == start + gaps@.subrange(0, i as int).map_values(
                    |g: CoverageGap| with_source(g, GapSource::Declared),
                ),
                self.assumptions@ == old(self).assumptions@,
            decreases gaps.len() - i,
        {
            let mut g = gaps[i].clone();
            g.source = GapSource::Declared;
            self.missing.push(g);
            proof {
                assert(gaps@.subrange(0, i + 1).map_values(
                    |g: CoverageGap| with_source(g, GapSource::Declared),
                ) =~= gaps@.subrange(0, i as int).map_values(
                    |g: CoverageGap| with_source(g, GapSource::Declared),
                ).push(with_source(gaps@[i as int], GapSource::Declared)));
            }
            i += 1;
        }
        proof {
            assert(gaps@.subrange(0, gaps.len() as int) =~= gaps@);
        }
    }

    /// Appends one gap found by the engine.
    pub fn push_detected(&mut self, gap: CoverageGap)
        ensures
            final(self).missing@ == old(self).missing@.push(
                with_source(gap, GapSource::Detected),
            ),
            final(self).assumptions@ == old(self).assumptions@,
    {
        let mut gap = gap;
        gap.source = GapSource::Detected;
        self.missing.push(gap);
    }

    /// Records one assumption.
    pub fn record_assumption(&mut self, statement: String)
        ensures
            final(self).assumptions@ == old(self).assumptions@.push(statement),
            final(self).missing@ == old(self).missing@,
    {
        self.assumptions.push(statement);
    }
}

/// A copy of a list of gaps.
pub fn copy_gaps(v: &Vec<CoverageGap>) -> (r: Vec<CoverageGap>)
    ensures
        r@ == v@,
{
    let mut out: Vec<CoverageGap> = Vec::new();
    let mut i: usize = 0;
    while i < v.len()
        invariant
            i <= v@.len(),
            out@ == v@.take(i as int),
        decreases v.len() - i,
    {
        out.push(v[i].clone());
        proof {
            assert(out@ =~= v@.take(i + 1));
        }
        i += 1;
    }
    proof {
        assert(out@ =~= v@);
    }
    out
}

} // verus!
