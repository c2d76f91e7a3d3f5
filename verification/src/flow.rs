//! Directional flow accounting.
//!
//! Gross A→B is never labeled migration. Reverse flow is first-class.
//! Missing denominators yield `None`, not zero ratios.
//!
//! Metric definition: `directional_flow.v2`.
use crate::day::Day;
use crate::dec::{
    dec_add, dec_div, dec_lt, dec_sign, dec_sub, lifted, pair, pair_add_exact, pair_sub_exact,
    pair_units, padd, pdiv, psub, sub_is_exact,
    sign_of, zero_pair, Dec,
};
use crate::event::EventWindow;
use crate::identity::AssetKey;
use crate::sort::{keys_distinct, lemma_stable_sort, lemma_stable_sort_unique, sort_by_key, stable_sort, Keyed};
use vstd::prelude::*;
use vstd::string::*;

verus! {

/// Non-negative quantity in an explicit unit. Construction requires a value;
/// there is no silent zero default used as "unknown".
#[derive(Debug, Clone, Copy, PartialEq, Eq)]
pub struct Quantity(Dec);

#[derive(Debug, PartialEq, Eq)]
pub enum FlowError {
    NegativeQuantity(Dec),
    /// A sum, difference or ratio did not fit a decimal.
    QuantityOverflow,
    EmptySeries(String),
    MixedRouteIds { first: String, other: String },
    DuplicateObservation { route_id: String, day: Day },
    MixedUnits(String),
    MixedAttribution(String),
    NonPositiveDenominator(Dec),
}

impl Quantity {
    /// The decimal held.
    pub closed spec fn value(self) -> Dec {
        self.0
    }

    #[verifier::type_invariant]
    pub closed spec fn nonneg(self) -> bool {
        self.0.units() >= 0
    }

    pub fn new(value: Dec) -> (r: Result<Quantity, FlowError>)
        ensures
            value.units() < 0 ==> r == Err::<Quantity, FlowError>(FlowError::NegativeQuantity(value)),
            value.units() >= 0 ==> (r matches Ok(q) && q.value() == value),
    {
        // Compare the value with zero, so that a negative zero counts as zero.
        if dec_lt(&value, &Dec::zero()) {
            return Err(FlowError::NegativeQuantity(value));
        }
        Ok(Quantity(value))
    }

    pub fn zero() -> (r: Quantity)
        ensures
            pair(r.value()) == zero_pair(),
            r.value().units() == 0,
    {
        Quantity(Dec::zero())
    }

    pub fn as_decimal(self) -> (r: Dec)
        ensures
            r == self.value(),
            r.units() >= 0,
    {
        proof {
            use_type_invariant(&self);
        }
        self.0
    }

    pub fn checked_add(self, other: Quantity) -> (r: Result<Quantity, FlowError>)
        ensures
            padd(pair(self.value()), pair(other.value())) is None ==> r
                == Err::<Quantity, FlowError>(FlowError::QuantityOverflow),
            padd(pair(self.value()), pair(other.value())) is Some ==> (r matches Ok(q) && pair(
                q.value(),
            ) == padd(pair(self.value()), pair(other.value())).unwrap()),
            pair_add_exact(pair(self.value()), pair(other.value())) ==> (r matches Ok(q)
                && q.value().units() == self.value().units() + other.value().units()),
    {
        proof {
            use_type_invariant(&self);
            use_type_invariant(&other);
        }
        match dec_add(&self.0, &other.0) {
            Some(v) => Ok(Quantity(v)),
            None => Err(FlowError::QuantityOverflow),
        }
    }

    /// The quantity as text.
    pub fn to_text(&self) -> (r: String)
        ensures
            r@ == crate::dec::decimal_text(self.value().mant(), self.value().scl()),
    {
        self.0.to_text()
    }
}

#[derive(Debug, PartialEq, Eq)]
pub enum FlowUnit {
    /// Native units of `asset` (typically the source leg of a conversion route).
    TokenNative { asset: AssetKey },
    QuoteUsd,
    Unknown,
}

/// Whether two units are the same.
pub open spec fn same_unit(a: FlowUnit, b: FlowUnit) -> bool {
    match (a, b) {
        (FlowUnit::TokenNative { asset: x }, FlowUnit::TokenNative { asset: y }) => x.0@ == y.0@,
        (FlowUnit::QuoteUsd, FlowUnit::QuoteUsd) => true,
        (FlowUnit::Unknown, FlowUnit::Unknown) => true,
        _ => false,
    }
}

impl FlowUnit {
    pub fn same(&self, other: &FlowUnit) -> (r: bool)
        ensures
            r == same_unit(*self, *other),
    {
        match (self, other) {
            (FlowUnit::TokenNative { asset: x }, FlowUnit::TokenNative { asset: y }) => x.same(y),
            (FlowUnit::QuoteUsd, FlowUnit::QuoteUsd) => true,
            (FlowUnit::Unknown, FlowUnit::Unknown) => true,
            _ => false,
        }
    }
}

impl Clone for FlowUnit {
    fn clone(&self) -> (r: Self)
        ensures
            r == *self,
    {
        match self {
            FlowUnit::TokenNative { asset } => FlowUnit::TokenNative { asset: asset.clone() },
            FlowUnit::QuoteUsd => FlowUnit::QuoteUsd,
            FlowUnit::Unknown => FlowUnit::Unknown,
        }
    }
}

#[derive(Debug, Clone, Copy, PartialEq, Eq, Structural)]
pub enum AttributionMethod {
    /// Swaps matched on the asset/mint pair (not necessarily issuer-operated).
    MintPairSwaps,
    Fixture,
}

#[derive(Debug, PartialEq, Eq)]
pub struct DirectionalFlowObservation {
    pub route_id: String,
    pub day: Day,
    pub gross_a_to_b: Quantity,
    pub gross_b_to_a: Quantity,
    pub unit: FlowUnit,
    pub attribution: AttributionMethod,
}

impl Clone for DirectionalFlowObservation {
    fn clone(&self) -> (r: Self)
        ensures
            r == *self,
    {
        DirectionalFlowObservation {
            route_id: self.route_id.clone(),
            day: self.day,
            gross_a_to_b: self.gross_a_to_b,
            gross_b_to_a: self.gross_b_to_a,
            unit: self.unit.clone(),
            attribution: self.attribution,
        }
    }
}

impl Keyed for DirectionalFlowObservation {
    open spec fn key(&self) -> int {
        self.day.num()
    }

    fn key_le(&self, other: &Self) -> (r: bool) {
        self.day.number() <= other.day.number()
    }
}

#[derive(Debug, Clone, Copy, PartialEq, Eq)]
pub struct CumulativePoint {
    pub day: Day,
    pub cumulative_net: Dec,
}

#[derive(Debug, PartialEq, Eq)]
pub struct FlowSeriesSummary {
    pub route_id: String,
    pub window_name: String,
    pub unit: FlowUnit,
    pub attribution: AttributionMethod,
    /// Distinct days with observations inside the window.
    pub observed_days: usize,
    /// Inclusive calendar length of the named window.
    pub window_days: usize,
    pub gross_a_to_b_total: Quantity,
    pub gross_b_to_a_total: Quantity,
    /// `gross_a_to_b_total - gross_b_to_a_total` (signed).
    pub net_total: Dec,
    pub cumulative_path: Vec<CumulativePoint>,
    /// Maximum of the observed cumulative path (not clamped at zero).
    pub peak_cumulative_net: Dec,
    /// Minimum of the observed cumulative path.
    pub trough_cumulative_net: Dec,
    /// Count of cumulative points strictly below zero.
    pub days_cumulative_negative: u32,
    /// Reverse gross per unit of forward gross: `B→A / A→B` when A→B > 0; else `None`.
    /// Values > 1 mean reverse-dominant traffic, not a percentage capped at 100%.
    pub reversal_ratio: Option<Dec>,
    /// Net over a frozen denominator when available; `None` if denominator missing.
    pub net_over_denominator: Option<Dec>,
    /// Count of flips between consecutive non-zero cumulative signs.
    pub sign_change_days: u32,
    /// Explicit note: this summary is accounting, not a migration verdict.
    pub interpretation_boundary: &'static str,
}

/// `a` and `b` hold the same values, the cumulative path compared by its view.
pub open spec fn same_flow_summary(a: FlowSeriesSummary, b: FlowSeriesSummary) -> bool {
    &&& a.route_id == b.route_id
    &&& a.window_name == b.window_name
    &&& a.unit == b.unit
    &&& a.attribution == b.attribution
    &&& a.observed_days == b.observed_days
    &&& a.window_days == b.window_days
    &&& a.gross_a_to_b_total == b.gross_a_to_b_total
    &&& a.gross_b_to_a_total == b.gross_b_to_a_total
    &&& a.net_total == b.net_total
    &&& a.cumulative_path@ == b.cumulative_path@
    &&& a.peak_cumulative_net == b.peak_cumulative_net
    &&& a.trough_cumulative_net == b.trough_cumulative_net
    &&& a.days_cumulative_negative == b.days_cumulative_negative
    &&& a.reversal_ratio == b.reversal_ratio
    &&& a.net_over_denominator == b.net_over_denominator
    &&& a.sign_change_days == b.sign_change_days
    &&& a.interpretation_boundary == b.interpretation_boundary
}

impl Clone for FlowSeriesSummary {
    fn clone(&self) -> (r: Self)
        ensures
            same_flow_summary(r, *self),
    {
        let mut path: Vec<CumulativePoint> = Vec::new();
        let mut i: usize = 0;
        while i < self.cumulative_path.len()
            invariant
                i <= self.cumulative_path@.len(),
                path@ == self.cumulative_path@.take(i as int),
            decreases self.cumulative_path.len() - i,
        {
            let p = self.cumulative_path[i];
            path.push(CumulativePoint { day: p.day, cumulative_net: p.cumulative_net });
            proof {
                assert(path@ =~= self.cumulative_path@.take(i + 1));
            }
            i += 1;
        }
        proof {
            assert(path@ =~= self.cumulative_path@);
        }
        FlowSeriesSummary {
            route_id: self.route_id.clone(),
            window_name: self.window_name.clone(),
            unit: self.unit.clone(),
            attribution: self.attribution,
            observed_days: self.observed_days,
            window_days: self.window_days,
            gross_a_to_b_total: self.gross_a_to_b_total,
            gross_b_to_a_total: self.gross_b_to_a_total,
            net_total: self.net_total,
            cumulative_path: path,
            peak_cumulative_net: self.peak_cumulative_net,
            trough_cumulative_net: self.trough_cumulative_net,
            days_cumulative_negative: self.days_cumulative_negative,
            reversal_ratio: self.reversal_ratio,
            net_over_denominator: self.net_over_denominator,
            sign_change_days: self.sign_change_days,
            interpretation_boundary: self.interpretation_boundary,
        }
    }
}

/// Whether `o` agrees with `first` on route, unit and attribution.
pub open spec fn obs_matches(o: DirectionalFlowObservation, first: DirectionalFlowObservation) -> bool {
    &&& o.route_id@ == first.route_id@
    &&& same_unit(o.unit, first.unit)
    &&& o.attribution == first.attribution
}

/// The first index at or after `i` whose observation disagrees with `s[0]`;
/// `s.len()` if there is none.
pub open spec fn first_mismatch(s: Seq<DirectionalFlowObservation>, i: int) -> int
    decreases s.len() - i,
{
    if i >= s.len() || i < 0 {
        s.len() as int
    } else if !obs_matches(s[i], s[0]) {
        i
    } else {
        first_mismatch(s, i + 1)
    }
}

/// The first index at or after `i` whose day equals the next observation's
/// day; `s.len()` if there is none.
pub open spec fn first_duplicate(s: Seq<DirectionalFlowObservation>, i: int) -> int
    decreases s.len() - i,
{
    if i + 1 >= s.len() || i < 0 {
        s.len() as int
    } else if s[i].day.num() == s[i + 1].day.num() {
        i
    } else {
        first_duplicate(s, i + 1)
    }
}

/// The running totals over the first `n` observations of `s`: forward gross,
/// reverse gross, and the cumulative net path, each as `rust_decimal`
/// computes them; `None` once a step does not fit.
pub open spec fn flow_run(s: Seq<DirectionalFlowObservation>, n: int) -> Option<
    ((int, int), (int, int), Seq<(int, int)>),
>
    decreases n,
{
    if n <= 0 {
        Some((zero_pair(), zero_pair(), Seq::empty()))
    } else {
        match flow_run(s, n - 1) {
            None => None,
            Some(st) => {
                let o = s[n - 1];
                let qa = pair(o.gross_a_to_b.value());
                let qb = pair(o.gross_b_to_a.value());
                match (padd(st.0, qa), padd(st.1, qb), psub(qa, qb)) {
                    (Some(a), Some(b), Some(net)) => if n == 1 {
                        Some((a, b, seq![net]))
                    } else {
                        match padd(st.2.last(), net) {
                            Some(c) => Some((a, b, st.2.push(c))),
                            None => None,
                        }
                    },
                    _ => None,
                }
            },
        }
    }
}

/// Whether every step of the running totals over the first `n` observations
/// of `s` is exact: each gross sum, each day's difference and each
/// cumulative sum fits without rounding.
pub open spec fn flow_steps_exact(s: Seq<DirectionalFlowObservation>, n: int) -> bool
    decreases n,
{
    if n <= 0 {
        true
    } else {
        &&& flow_steps_exact(s, n - 1)
        &&& match flow_run(s, n - 1) {
            None => false,
            Some(st) => {
                let qa = pair(s[n - 1].gross_a_to_b.value());
                let qb = pair(s[n - 1].gross_b_to_a.value());
                &&& pair_add_exact(st.0, qa)
                &&& pair_add_exact(st.1, qb)
                &&& pair_sub_exact(qa, qb)
                &&& (n == 1 || pair_add_exact(st.2.last(), psub(qa, qb).unwrap()))
            },
        }
    }
}

/// The exact sum of the first `n` forward gross quantities of `s`, in units.
pub open spec fn forward_units(s: Seq<DirectionalFlowObservation>, n: int) -> int
    decreases n,
{
    if n <= 0 {
        0
    } else {
        forward_units(s, n - 1) + s[n - 1].gross_a_to_b.value().units()
    }
}

/// The exact sum of the first `n` reverse gross quantities of `s`, in units.
pub open spec fn reverse_units(s: Seq<DirectionalFlowObservation>, n: int) -> int
    decreases n,
{
    if n <= 0 {
        0
    } else {
        reverse_units(s, n - 1) + s[n - 1].gross_b_to_a.value().units()
    }
}

/// The peak of a cumulative path: on equal values the later point.
pub open spec fn path_peak(p: Seq<(int, int)>) -> (int, int)
    decreases p.len(),
{
    if p.len() <= 1 {
        p[0]
    } else {
        let prev = path_peak(p.drop_last());
        if pair_units(prev) > pair_units(p.last()) {
            prev
        } else {
            p.last()
        }
    }
}

/// The trough of a cumulative path: on equal values the earlier point.
pub open spec fn path_trough(p: Seq<(int, int)>) -> (int, int)
    decreases p.len(),
{
    if p.len() <= 1 {
        p[0]
    } else {
        let prev = path_trough(p.drop_last());
        if pair_units(p.last()) < pair_units(prev) {
            p.last()
        } else {
            prev
        }
    }
}

/// Number of points of the path below zero.
pub open spec fn count_negative(p: Seq<(int, int)>) -> nat
    decreases p.len(),
{
    if p.len() == 0 {
        0
    } else {
        count_negative(p.drop_last()) + if pair_units(p.last()) < 0 { 1nat } else { 0nat }
    }
}

/// Sign of the last non-zero point of the path; `0` if there is none.
pub open spec fn last_nonzero_sign(p: Seq<(int, int)>) -> int
    decreases p.len(),
{
    if p.len() == 0 {
        0
    } else if sign_of(pair_units(p.last())) != 0 {
        sign_of(pair_units(p.last()))
    } else {
        last_nonzero_sign(p.drop_last())
    }
}

/// Number of points whose non-zero sign differs from the sign of the last
/// non-zero point before them.
pub open spec fn sign_changes(p: Seq<(int, int)>) -> nat
    decreases p.len(),
{
    if p.len() == 0 {
        0
    } else {
        let prev = last_nonzero_sign(p.drop_last());
        let s = sign_of(pair_units(p.last()));
        sign_changes(p.drop_last()) + if prev != 0 && s != 0 && s != prev { 1nat } else { 0nat }
    }
}

/// Once a step of the run does not fit, no longer run fits either.
pub proof fn lemma_flow_run_stays_none(s: Seq<DirectionalFlowObservation>, n: int, m: int)
    requires
        0 <= n <= m,
        flow_run(s, n) is None,
    ensures
        flow_run(s, m) is None,
    decreases m - n,
{
    if n < m {
        lemma_flow_run_stays_none(s, n, m - 1);
    }
}

/// A run that fits has one path point per observation.
pub proof fn lemma_flow_run_len(s: Seq<DirectionalFlowObservation>, n: int)
    requires
        0 <= n,
        flow_run(s, n) is Some,
    ensures
        flow_run(s, n).unwrap().2.len() == n,
    decreases n,
{
    if n > 0 {
        lemma_flow_run_len(s, n - 1);
    }
}

/// The peak of a non-empty path is one of its points and no point is above it.
proof fn lemma_path_peak(p: Seq<(int, int)>)
    requires
        p.len() > 0,
    ensures
        p.contains(path_peak(p)),
        forall|i: int| 0 <= i < p.len() ==> pair_units(#[trigger] p[i]) <= pair_units(path_peak(p)),
    decreases p.len(),
{
    if p.len() > 1 {
        let q = p.drop_last();
        lemma_path_peak(q);
        assert(p[p.len() - 1] == p.last());
        if pair_units(path_peak(q)) > pair_units(p.last()) {
            let k = choose|k: int| 0 <= k < q.len() && q[k] == path_peak(q);
            assert(p[k] == q[k]);
        }
        assert forall|i: int| 0 <= i < p.len() implies pair_units(#[trigger] p[i]) <= pair_units(
            path_peak(p),
        ) by {
            if i < q.len() {
                assert(p[i] == q[i]);
            }
        }
    } else {
        assert(p[0] == path_peak(p));
    }
}

/// The trough of a non-empty path is one of its points and no point is below it.
proof fn lemma_path_trough(p: Seq<(int, int)>)
    requires
        p.len() > 0,
    ensures
        p.contains(path_trough(p)),
        forall|i: int| 0 <= i < p.len() ==> pair_units(path_trough(p)) <= pair_units(#[trigger] p[i]),
    decreases p.len(),
{
    if p.len() > 1 {
        let q = p.drop_last();
        lemma_path_trough(q);
        assert(p[p.len() - 1] == p.last());
        if !(pair_units(p.last()) < pair_units(path_trough(q))) {
            let k = choose|k: int| 0 <= k < q.len() && q[k] == path_trough(q);
            assert(p[k] == q[k]);
        }
        assert forall|i: int| 0 <= i < p.len() implies pair_units(path_trough(p)) <= pair_units(
            #[trigger] p[i],
        ) by {
            if i < q.len() {
                assert(p[i] == q[i]);
            }
        }
    } else {
        assert(p[0] == path_trough(p));
    }
}

/// No more points are below zero than the path has.
proof fn lemma_count_negative_le(p: Seq<(int, int)>)
    ensures
        count_negative(p) <= p.len(),
    decreases p.len(),
{
    if p.len() > 0 {
        lemma_count_negative_le(p.drop_last());
    }
}

/// A path of `n > 0` points changes sign at most `n - 1` times.
proof fn lemma_sign_changes_lt(p: Seq<(int, int)>)
    requires
        p.len() > 0,
    ensures
        sign_changes(p) < p.len(),
    decreases p.len(),
{
    if p.len() > 1 {
        lemma_sign_changes_lt(p.drop_last());
    } else {
        assert(sign_changes(p.drop_last()) == 0);
        assert(last_nonzero_sign(p.drop_last()) == 0);
    }
}

/// From index `i` on, no day of the sorted series repeats the next one.
proof fn lemma_no_duplicate_from(s: Seq<DirectionalFlowObservation>, i: int)
    requires
        0 <= i,
        first_duplicate(s, i) == s.len(),
    ensures
        forall|k: int| i <= k && k + 1 < s.len() ==> #[trigger] s[k].day.num() != s[k + 1].day.num(),
    decreases s.len() - i,
{
    if i + 1 < s.len() {
        lemma_no_duplicate_from(s, i + 1);
    }
}

/// The peak and the trough of a flow summary bound every point of its
/// cumulative path and are points of it; no more days end below zero than
/// were observed, and the cumulative sign flips fewer times than that.
pub proof fn law_flow_path_bounds(
    observations: Seq<DirectionalFlowObservation>,
    window: EventWindow,
    denominator: Option<Dec>,
    summary: FlowSeriesSummary,
)
    requires
        flow_checks_pass(sorted_flows(observations), denominator),
        flow_fits(sorted_flows(observations), denominator),
        flow_summary_of(summary, sorted_flows(observations), window, denominator),
    ensures
        forall|i: int|
            0 <= i < summary.cumulative_path@.len() ==> summary.trough_cumulative_net.units()
                <= (#[trigger] summary.cumulative_path@[i]).cumulative_net.units()
                <= summary.peak_cumulative_net.units(),
        exists|i: int|
            0 <= i < summary.cumulative_path@.len() && (#[trigger] summary.cumulative_path@[i]).cumulative_net.units()
                == summary.peak_cumulative_net.units(),
        exists|i: int|
            0 <= i < summary.cumulative_path@.len() && (#[trigger] summary.cumulative_path@[i]).cumulative_net.units()
                == summary.trough_cumulative_net.units(),
        summary.days_cumulative_negative <= summary.observed_days,
        summary.sign_change_days < summary.observed_days,
{
    let s = sorted_flows(observations);
    let run = flow_run(s, s.len() as int).unwrap();
    lemma_flow_run_len(s, s.len() as int);
    let p = run.2;
    lemma_path_peak(p);
    lemma_path_trough(p);
    lemma_count_negative_le(p);
    lemma_sign_changes_lt(p);
    let path = summary.cumulative_path@;
    assert forall|i: int| 0 <= i < path.len() implies summary.trough_cumulative_net.units()
        <= (#[trigger] path[i]).cumulative_net.units() <= summary.peak_cumulative_net.units() by {
        assert(pair(path[i].cumulative_net) == p[i]);
    }
    let k = choose|k: int| 0 <= k < p.len() && p[k] == path_peak(p);
    assert(pair(path[k].cumulative_net) == p[k]);
    let m = choose|m: int| 0 <= m < p.len() && p[m] == path_trough(p);
    assert(pair(path[m].cumulative_net) == p[m]);
}

/// A flow summary gives a reversal ratio exactly when the forward gross is
/// positive, and a net over the denominator exactly when a denominator was given.
pub proof fn law_flow_ratio_presence(
    observations: Seq<DirectionalFlowObservation>,
    window: EventWindow,
    denominator: Option<Dec>,
    summary: FlowSeriesSummary,
)
    requires
        flow_checks_pass(sorted_flows(observations), denominator),
        flow_fits(sorted_flows(observations), denominator),
        flow_summary_of(summary, sorted_flows(observations), window, denominator),
    ensures
        summary.reversal_ratio is Some <==> summary.gross_a_to_b_total.value().units() > 0,
        summary.net_over_denominator is Some <==> denominator is Some,
{
}

/// The days of a flow summary's cumulative path strictly increase: one point
/// per observed day, in day order.
pub proof fn law_flow_path_days_increase(
    observations: Seq<DirectionalFlowObservation>,
    window: EventWindow,
    denominator: Option<Dec>,
    summary: FlowSeriesSummary,
)
    requires
        flow_checks_pass(sorted_flows(observations), denominator),
        flow_fits(sorted_flows(observations), denominator),
        flow_summary_of(summary, sorted_flows(observations), window, denominator),
    ensures
        forall|i: int, j: int|
            0 <= i < j < summary.cumulative_path@.len() ==> (#[trigger] summary.cumulative_path@[i]).day.num()
                < (#[trigger] summary.cumulative_path@[j]).day.num(),
{
    let s = sorted_flows(observations);
    lemma_stable_sort(observations);
    lemma_no_duplicate_from(s, 0);
    let path = summary.cumulative_path@;
    assert forall|i: int, j: int| 0 <= i < j < path.len() implies (#[trigger] path[i]).day.num()
        < (#[trigger] path[j]).day.num() by {
        assert(s[i].day.num() != s[i + 1].day.num());
        assert(s[i].key() <= s[i + 1].key());
        assert(s[i + 1].key() <= s[j].key());
        assert(path[i].day == s[i].day);
        assert(path[j].day == s[j].day);
    }
}

/// The interpretation note of every flow summary.
pub open spec fn flow_boundary_note() -> Seq<char> {
    "Flow accounting only. Gross and net flows are not migration labels."@
}

/// Observations sorted by day (stably), as the accounting reads them.
pub open spec fn sorted_flows(observations: Seq<DirectionalFlowObservation>) -> Seq<
    DirectionalFlowObservation,
> {
    stable_sort(observations)
}

/// Whether the sorted series passes the route, unit, attribution, day and
/// denominator checks.
pub open spec fn flow_checks_pass(s: Seq<DirectionalFlowObservation>, denominator: Option<Dec>) -> bool {
    &&& s.len() > 0
    &&& first_mismatch(s, 0) == s.len()
    &&& first_duplicate(s, 0) == s.len()
    &&& (denominator matches Some(d) ==> d.units() > 0)
}

/// Which check the first disagreeing observation fails: `1` route, `2` unit,
/// `3` attribution; `0` if every observation agrees with the first.
pub open spec fn mismatch_kind(s: Seq<DirectionalFlowObservation>) -> int {
    let k = first_mismatch(s, 0);
    if s.len() == 0 || k >= s.len() {
        0
    } else if s[k].route_id@ != s[0].route_id@ {
        1
    } else if !same_unit(s[k].unit, s[0].unit) {
        2
    } else {
        3
    }
}

/// Every observation agrees with the first and no day repeats.
pub open spec fn series_consistent(s: Seq<DirectionalFlowObservation>) -> bool {
    s.len() > 0 && first_mismatch(s, 0) == s.len() && first_duplicate(s, 0) == s.len()
}

/// The observations agree but two share a day.
pub open spec fn duplicate_found(s: Seq<DirectionalFlowObservation>) -> bool {
    s.len() > 0 && first_mismatch(s, 0) == s.len() && first_duplicate(s, 0) < s.len()
}

/// Whether `e` is the error that accounting the sorted series `s` against
/// `denominator` reports: the first check that fails, in the order empty
/// series, route, unit, attribution, repeated day, denominator, and
/// otherwise an overflow.
pub open spec fn flow_error_is(e: FlowError, s: Seq<DirectionalFlowObservation>, denominator: Option<Dec>) -> bool {
    if s.len() == 0 {
        e matches FlowError::EmptySeries(m) && m@ == "<unknown>"@
    } else if mismatch_kind(s) == 1 {
        e matches FlowError::MixedRouteIds { first, other } && first@ == s[0].route_id@
            && other@ == s[first_mismatch(s, 0)].route_id@
    } else if mismatch_kind(s) == 2 {
        e matches FlowError::MixedUnits(id) && id@ == s[0].route_id@
    } else if mismatch_kind(s) == 3 {
        e matches FlowError::MixedAttribution(id) && id@ == s[0].route_id@
    } else if duplicate_found(s) {
        e matches FlowError::DuplicateObservation { route_id, day } && route_id@ == s[0].route_id@
            && day == s[first_duplicate(s, 0)].day
    } else if denominator matches Some(d) && d.units() <= 0 {
        e == FlowError::NonPositiveDenominator(denominator.unwrap())
    } else {
        e == FlowError::QuantityOverflow
    }
}

/// Whether every sum, difference and ratio of the accounting fits a decimal.
pub open spec fn flow_fits(s: Seq<DirectionalFlowObservation>, denominator: Option<Dec>) -> bool {
    &&& flow_run(s, s.len() as int) is Some
    &&& flow_final(
        flow_run(s, s.len() as int).unwrap().0,
        flow_run(s, s.len() as int).unwrap().1,
        denominator,
    ) is Some
}

/// Net total, reversal ratio and net over denominator, from the totals; `None`
/// if a step does not fit.
pub open spec fn flow_final(a: (int, int), b: (int, int), denominator: Option<Dec>) -> Option<
    ((int, int), Option<(int, int)>, Option<(int, int)>),
> {
    match psub(a, b) {
        None => None,
        Some(net) => {
            let rev = if pair_units(a) > 0 {
                match pdiv(b, a) {
                    Some(x) => Some(Some(x)),
                    None => None,
                }
            } else {
                Some(None)
            };
            let over = match denominator {
                None => Some(None),
                Some(d) => match pdiv(net, pair(d)) {
                    Some(x) => Some(Some(x)),
                    None => None,
                },
            };
            match (rev, over) {
                (Some(rv), Some(ov)) => Some((net, rv, ov)),
                _ => None,
            }
        },
    }
}

/// Whether `summary` is the accounting of the sorted series `s` in `window`.
pub open spec fn flow_summary_of(
    summary: FlowSeriesSummary,
    s: Seq<DirectionalFlowObservation>,
    window: EventWindow,
    denominator: Option<Dec>,
) -> bool {
    let run = flow_run(s, s.len() as int).unwrap();
    let fin = flow_final(run.0, run.1, denominator).unwrap();
    &&& summary.route_id@ == s[0].route_id@
    &&& summary.window_name@ == window.name@
    &&& summary.unit == s[0].unit
    &&& summary.attribution == s[0].attribution
    &&& summary.observed_days == s.len()
    &&& summary.window_days == window.end.num() - window.start.num() + 1
    &&& pair(summary.gross_a_to_b_total.value()) == run.0
    &&& pair(summary.gross_b_to_a_total.value()) == run.1
    &&& pair(summary.net_total) == fin.0
    &&& summary.cumulative_path@.len() == s.len()
    &&& forall|i: int|
        0 <= i < s.len() ==> (#[trigger] summary.cumulative_path@[i]).day == s[i].day && pair(
            summary.cumulative_path@[i].cumulative_net,
        ) == run.2[i]
    &&& pair(summary.peak_cumulative_net) == path_peak(run.2)
    &&& pair(summary.trough_cumulative_net) == path_trough(run.2)
    &&& summary.days_cumulative_negative == count_negative(run.2)
    &&& summary.sign_change_days == sign_changes(run.2)
    &&& (summary.reversal_ratio is Some <==> fin.1 is Some)
    &&& (summary.reversal_ratio is Some ==> pair(summary.reversal_ratio.unwrap()) == fin.1.unwrap())
    &&& (summary.net_over_denominator is Some <==> fin.2 is Some)
    &&& (summary.net_over_denominator is Some ==> pair(summary.net_over_denominator.unwrap())
        == fin.2.unwrap())
    &&& summary.interpretation_boundary@ == flow_boundary_note()
}

/// The order of the observations does not matter: two inputs holding the
/// same observations, no day twice, sort to the same series, so accounting
/// either one succeeds on the same inputs, with a summary described alike,
/// or fails with the same error.
pub proof fn law_flow_order_irrelevant(
    a: Seq<DirectionalFlowObservation>,
    b: Seq<DirectionalFlowObservation>,
    window: EventWindow,
    denominator: Option<Dec>,
)
    requires
        a.to_multiset() == b.to_multiset(),
        forall|i: int, j: int| 0 <= i < j < a.len() ==> (#[trigger] a[i]).day.num() != (#[trigger] a[j]).day.num(),
    ensures
        sorted_flows(a) == sorted_flows(b),
        (flow_checks_pass(sorted_flows(a), denominator) && flow_fits(sorted_flows(a), denominator))
            == (flow_checks_pass(sorted_flows(b), denominator) && flow_fits(sorted_flows(b), denominator)),
        forall|summary: FlowSeriesSummary|
            #[trigger] flow_summary_of(summary, sorted_flows(a), window, denominator) == flow_summary_of(
                summary,
                sorted_flows(b),
                window,
                denominator,
            ),
        forall|e: FlowError|
            #[trigger] flow_error_is(e, sorted_flows(a), denominator) == flow_error_is(
                e,
                sorted_flows(b),
                denominator,
            ),
{
    assert(keys_distinct(a)) by {
        assert forall|i: int, j: int| 0 <= i < j < a.len() implies #[trigger] a[i].key()
            != #[trigger] a[j].key() by {
            assert(a[i].day.num() != a[j].day.num());
        }
    }
    lemma_stable_sort_unique(a, b);
}

proof fn lemma_first_mismatch(s: Seq<DirectionalFlowObservation>, i: int)
    requires
        0 <= i,
    ensures
        i <= first_mismatch(s, i) <= s.len() || (i > s.len() && first_mismatch(s, i) == s.len()),
        forall|j: int| i <= j < first_mismatch(s, i) ==> obs_matches(#[trigger] s[j], s[0]),
        first_mismatch(s, i) < s.len() ==> !obs_matches(s[first_mismatch(s, i)], s[0]),
    decreases s.len() - i,
{
    if i < s.len() && obs_matches(s[i], s[0]) {
        lemma_first_mismatch(s, i + 1);
    }
}

/// Observations that pass the agreement check agree with the first one in
/// route, unit and attribution: an accounted series never mixes units.
pub proof fn law_agreeing_series_share_unit(s: Seq<DirectionalFlowObservation>)
    requires
        first_mismatch(s, 0) == s.len(),
    ensures
        forall|i: int|
            0 <= i < s.len() ==> (#[trigger] s[i]).route_id@ == s[0].route_id@ && same_unit(
                s[i].unit,
                s[0].unit,
            ) && s[i].attribution == s[0].attribution,
{
    lemma_first_mismatch(s, 0);
    assert forall|i: int| 0 <= i < s.len() implies (#[trigger] s[i]).route_id@ == s[0].route_id@
        && same_unit(s[i].unit, s[0].unit) && s[i].attribution == s[0].attribution by {
        assert(obs_matches(s[i], s[0]));
    }
}

/// A series of one route and one attribution in which some observation's
/// unit differs from the first's is refused with `MixedUnits`, naming the
/// route.
pub proof fn law_unit_mismatch_is_mixed_units(
    s: Seq<DirectionalFlowObservation>,
    denominator: Option<Dec>,
    e: FlowError,
)
    requires
        s.len() > 0,
        forall|i: int|
            0 <= i < s.len() ==> (#[trigger] s[i]).route_id@ == s[0].route_id@ && s[i].attribution
                == s[0].attribution,
        exists|j: int| 0 <= j < s.len() && !same_unit((#[trigger] s[j]).unit, s[0].unit),
        flow_error_is(e, s, denominator),
    ensures
        e matches FlowError::MixedUnits(id) && id@ == s[0].route_id@,
{
    lemma_first_mismatch(s, 0);
    let j = choose|j: int| 0 <= j < s.len() && !same_unit((#[trigger] s[j]).unit, s[0].unit);
    assert(!obs_matches(s[j], s[0]));
    let k = first_mismatch(s, 0);
    assert(k < s.len());
    assert(s[k].route_id@ == s[0].route_id@);
    assert(mismatch_kind(s) == 2);
}

/// Every observation of the input is in its sorted series and the reverse.
proof fn lemma_sorted_flows_members(o: Seq<DirectionalFlowObservation>)
    ensures
        sorted_flows(o).len() == o.len(),
        forall|i: int| 0 <= i < o.len() ==> exists|k: int| 0 <= k < sorted_flows(o).len() && sorted_flows(o)[k] == #[trigger] o[i],
        forall|k: int| 0 <= k < sorted_flows(o).len() ==> exists|i: int| 0 <= i < o.len() && o[i] == #[trigger] sorted_flows(o)[k],
{
    broadcast use vstd::seq_lib::group_to_multiset_ensures;

    lemma_stable_sort(o);
    crate::sort::lemma_stable_sort_permutes(o);
    let s = sorted_flows(o);
    assert forall|i: int| 0 <= i < o.len() implies exists|k: int| 0 <= k < s.len() && s[k] == #[trigger] o[i] by {
        assert(o.contains(o[i]));
        assert(o.to_multiset().count(o[i]) > 0);
        assert(s.contains(o[i]));
    }
    assert forall|k: int| 0 <= k < s.len() implies exists|i: int| 0 <= i < o.len() && o[i] == #[trigger] s[k] by {
        assert(s.contains(s[k]));
        assert(s.to_multiset().count(s[k]) > 0);
        assert(o.contains(s[k]));
    }
}

/// Deterministic directional-flow accounting for one route inside one named window.
///
/// Observations must already be filtered to the window. Duplicate `(route_id, day)`
/// rows are rejected. Does **not** classify results as migration. A sum,
/// difference or ratio that does not fit a decimal is reported as
/// `QuantityOverflow`.
pub fn account_directional_flows(
    observations: Vec<DirectionalFlowObservation>,
    window: &EventWindow,
    denominator: Option<Dec>,
) -> (r: Result<FlowSeriesSummary, FlowError>)
    requires
        window.start.num() <= window.end.num(),
        observations@.len() < 0xffff_ffff,
    ensures
        sorted_flows(observations@).len() == 0 ==> (r matches Err(FlowError::EmptySeries(m))
            && m@ == "<unknown>"@),
        mismatch_kind(sorted_flows(observations@)) == 1 ==> (r matches Err(
            FlowError::MixedRouteIds { first, other },
        ) && first@ == sorted_flows(observations@)[0].route_id@ && other@ == sorted_flows(
            observations@,
        )[first_mismatch(sorted_flows(observations@), 0)].route_id@),
        mismatch_kind(sorted_flows(observations@)) == 2 ==> (r matches Err(FlowError::MixedUnits(id))
            && id@ == sorted_flows(observations@)[0].route_id@),
        mismatch_kind(sorted_flows(observations@)) == 3 ==> (r matches Err(
            FlowError::MixedAttribution(id),
        ) && id@ == sorted_flows(observations@)[0].route_id@),
        duplicate_found(sorted_flows(observations@)) ==> (r matches Err(
            FlowError::DuplicateObservation { route_id, day },
        ) && route_id@ == sorted_flows(observations@)[0].route_id@ && day == sorted_flows(
            observations@,
        )[first_duplicate(sorted_flows(observations@), 0)].day),
        series_consistent(sorted_flows(observations@)) && denominator is Some
            && denominator.unwrap().units() <= 0 ==> r == Err::<FlowSeriesSummary, FlowError>(
            FlowError::NonPositiveDenominator(denominator.unwrap()),
        ),
        flow_checks_pass(sorted_flows(observations@), denominator) ==> (r is Ok <==> flow_fits(
            sorted_flows(observations@),
            denominator,
        )),
        flow_checks_pass(sorted_flows(observations@), denominator) && r is Err ==> r == Err::<
            FlowSeriesSummary,
            FlowError,
        >(FlowError::QuantityOverflow),
        r matches Ok(summary) ==> flow_checks_pass(sorted_flows(observations@), denominator)
            && flow_summary_of(summary, sorted_flows(observations@), *window, denominator),
        r matches Err(e) ==> flow_error_is(e, sorted_flows(observations@), denominator),
        r matches Ok(summary) ==> (sub_is_exact(
            summary.gross_a_to_b_total.value(),
            summary.gross_b_to_a_total.value(),
        ) ==> summary.net_total.units() == summary.gross_a_to_b_total.value().units()
            - summary.gross_b_to_a_total.value().units()),
        r matches Ok(summary) ==> (flow_steps_exact(
            sorted_flows(observations@),
            observations@.len() as int,
        ) ==> {
            let s = sorted_flows(observations@);
            &&& summary.gross_a_to_b_total.value().units() == forward_units(s, s.len() as int)
            &&& summary.gross_b_to_a_total.value().units() == reverse_units(s, s.len() as int)
            &&& summary.cumulative_path@.last().cumulative_net.units() == forward_units(
                s,
                s.len() as int,
            ) - reverse_units(s, s.len() as int)
        }),
        r is Ok ==> forall|i: int, j: int|
            0 <= i < observations@.len() && 0 <= j < observations@.len() ==> same_unit(
                (#[trigger] observations@[i]).unit,
                (#[trigger] observations@[j]).unit,
            ),
        ({
            let o = observations@;
            (o.len() > 0 && (forall|i: int|
                0 <= i < o.len() ==> (#[trigger] o[i]).route_id@ == o[0].route_id@ && o[i].attribution
                    == o[0].attribution) && (exists|i: int, j: int|
                0 <= i < o.len() && 0 <= j < o.len() && !same_unit(
                    (#[trigger] o[i]).unit,
                    (#[trigger] o[j]).unit,
                ))) ==> (r matches Err(FlowError::MixedUnits(id)) && id@ == o[0].route_id@)
        }),
{
    let ghost o = observations@;
    let r = account_flows_checked(observations, window, denominator);
    proof {
        if r is Ok {
            lemma_input_units_agree(o);
        }
        if o.len() > 0 && (forall|i: int|
            0 <= i < o.len() ==> (#[trigger] o[i]).route_id@ == o[0].route_id@ && o[i].attribution
                == o[0].attribution) && (exists|i: int, j: int|
            0 <= i < o.len() && 0 <= j < o.len() && !same_unit(
                (#[trigger] o[i]).unit,
                (#[trigger] o[j]).unit,
            )) {
            if r is Ok {
                lemma_input_units_agree(o);
            } else {
                lemma_input_unit_mismatch(o, denominator, r->Err_0);
            }
        }
    }
    r
}

/// Where the sorted series passes the agreement check, all input
/// observations share one unit.
proof fn lemma_input_units_agree(o: Seq<DirectionalFlowObservation>)
    requires
        first_mismatch(sorted_flows(o), 0) == sorted_flows(o).len(),
    ensures
        forall|i: int, j: int|
            0 <= i < o.len() && 0 <= j < o.len() ==> same_unit(
                (#[trigger] o[i]).unit,
                (#[trigger] o[j]).unit,
            ),
{
    let s = sorted_flows(o);
    lemma_sorted_flows_members(o);
    law_agreeing_series_share_unit(s);
    assert forall|i: int, j: int| 0 <= i < o.len() && 0 <= j < o.len() implies same_unit(
        (#[trigger] o[i]).unit,
        (#[trigger] o[j]).unit,
    ) by {
        let ki = choose|k: int| 0 <= k < s.len() && s[k] == o[i];
        let kj = choose|k: int| 0 <= k < s.len() && s[k] == o[j];
        assert(same_unit(s[ki].unit, s[0].unit));
        assert(same_unit(s[kj].unit, s[0].unit));
    }
}

/// Input observations of one route and attribution whose units differ give
/// `MixedUnits` on their sorted series.
proof fn lemma_input_unit_mismatch(o: Seq<DirectionalFlowObservation>, denominator: Option<Dec>, e: FlowError)
    requires
        o.len() > 0,
        forall|i: int|
            0 <= i < o.len() ==> (#[trigger] o[i]).route_id@ == o[0].route_id@ && o[i].attribution
                == o[0].attribution,
        exists|i: int, j: int|
            0 <= i < o.len() && 0 <= j < o.len() && !same_unit(
                (#[trigger] o[i]).unit,
                (#[trigger] o[j]).unit,
            ),
        flow_error_is(e, sorted_flows(o), denominator),
    ensures
        e matches FlowError::MixedUnits(id) && id@ == o[0].route_id@,
{
    let s = sorted_flows(o);
    lemma_sorted_flows_members(o);
    let (i, j) = choose|i: int, j: int|
        0 <= i < o.len() && 0 <= j < o.len() && !same_unit(
            (#[trigger] o[i]).unit,
            (#[trigger] o[j]).unit,
        );
    assert forall|k: int| 0 <= k < s.len() implies (#[trigger] s[k]).route_id@ == s[0].route_id@
        && s[k].attribution == s[0].attribution by {
        let a = choose|a: int| 0 <= a < o.len() && o[a] == s[k];
        let b = choose|b: int| 0 <= b < o.len() && o[b] == s[0];
        assert(o[a].route_id@ == o[0].route_id@);
        assert(o[b].route_id@ == o[0].route_id@);
    }
    let ki = choose|k: int| 0 <= k < s.len() && s[k] == o[i];
    let kj = choose|k: int| 0 <= k < s.len() && s[k] == o[j];
    let kk = if !same_unit(s[ki].unit, s[0].unit) { ki } else { kj };
    assert(!same_unit((#[trigger] s[kk]).unit, s[0].unit));
    law_unit_mismatch_is_mixed_units(s, denominator, e);
    let b = choose|b: int| 0 <= b < o.len() && o[b] == s[0];
    assert(o[b].route_id@ == o[0].route_id@);
}

fn account_flows_checked(
    observations: Vec<DirectionalFlowObservation>,
    window: &EventWindow,
    denominator: Option<Dec>,
) -> (r: Result<FlowSeriesSummary, FlowError>)
    requires
        window.start.num() <= window.end.num(),
        observations@.len() < 0xffff_ffff,
    ensures
        sorted_flows(observations@).len() == 0 ==> (r matches Err(FlowError::EmptySeries(m))
            && m@ == "<unknown>"@),
        mismatch_kind(sorted_flows(observations@)) == 1 ==> (r matches Err(
            FlowError::MixedRouteIds { first, other },
        ) && first@ == sorted_flows(observations@)[0].route_id@ && other@ == sorted_flows(
            observations@,
        )[first_mismatch(sorted_flows(observations@), 0)].route_id@),
        mismatch_kind(sorted_flows(observations@)) == 2 ==> (r matches Err(FlowError::MixedUnits(id))
            && id@ == sorted_flows(observations@)[0].route_id@),
        mismatch_kind(sorted_flows(observations@)) == 3 ==> (r matches Err(
            FlowError::MixedAttribution(id),
        ) && id@ == sorted_flows(observations@)[0].route_id@),
        duplicate_found(sorted_flows(observations@)) ==> (r matches Err(
            FlowError::DuplicateObservation { route_id, day },
        ) && route_id@ == sorted_flows(observations@)[0].route_id@ && day == sorted_flows(
            observations@,
        )[first_duplicate(sorted_flows(observations@), 0)].day),
        series_consistent(sorted_flows(observations@)) && denominator is Some
            && denominator.unwrap().units() <= 0 ==> r == Err::<FlowSeriesSummary, FlowError>(
            FlowError::NonPositiveDenominator(denominator.unwrap()),
        ),
        flow_checks_pass(sorted_flows(observations@), denominator) ==> (r is Ok <==> flow_fits(
            sorted_flows(observations@),
            denominator,
        )),
        flow_checks_pass(sorted_flows(observations@), denominator) && r is Err ==> r == Err::<
            FlowSeriesSummary,
            FlowError,
        >(FlowError::QuantityOverflow),
        r matches Ok(summary) ==> flow_checks_pass(sorted_flows(observations@), denominator)
            && flow_summary_of(summary, sorted_flows(observations@), *window, denominator),
        r matches Err(e) ==> flow_error_is(e, sorted_flows(observations@), denominator),
        r matches Ok(summary) ==> (sub_is_exact(
            summary.gross_a_to_b_total.value(),
            summary.gross_b_to_a_total.value(),
        ) ==> summary.net_total.units() == summary.gross_a_to_b_total.value().units()
            - summary.gross_b_to_a_total.value().units()),
        r matches Ok(summary) ==> (flow_steps_exact(
            sorted_flows(observations@),
            observations@.len() as int,
        ) ==> {
            let s = sorted_flows(observations@);
            &&& summary.gross_a_to_b_total.value().units() == forward_units(s, s.len() as int)
            &&& summary.gross_b_to_a_total.value().units() == reverse_units(s, s.len() as int)
            &&& summary.cumulative_path@.last().cumulative_net.units() == forward_units(
                s,
                s.len() as int,
            ) - reverse_units(s, s.len() as int)
        }),
{
    if observations.len() == 0 {
        proof {
            lemma_stable_sort(observations@);
        }
        return Err(FlowError::EmptySeries(String::from_str("<unknown>")));
    }
    let ghost input = observations@;
    let obs = sort_by_key(observations);
    let ghost s = obs@;
    proof {
        lemma_stable_sort(input);
    }
    let route_id = obs[0].route_id.clone();
    let unit = obs[0].unit.clone();
    let attribution = obs[0].attribution;

    let mut i: usize = 0;
    while i < obs.len()
        invariant
            s == obs@,
            s == sorted_flows(observations@),
            s.len() > 0,
            i <= s.len(),
            route_id == s[0].route_id,
            unit == s[0].unit,
            attribution == s[0].attribution,
            first_mismatch(s, 0) == first_mismatch(s, i as int),
        decreases obs.len() - i,
    {
        if obs[i].route_id != route_id {
            return Err(FlowError::MixedRouteIds { first: route_id, other: obs[i].route_id.clone() });
        }
        if !obs[i].unit.same(&unit) {
            return Err(FlowError::MixedUnits(route_id));
        }
        if obs[i].attribution != attribution {
            return Err(FlowError::MixedAttribution(route_id));
        }
        i += 1;
    }

    let mut i: usize = 0;
    while i + 1 < obs.len()
        invariant
            s == obs@,
            s == sorted_flows(observations@),
            s.len() > 0,
            i < s.len(),
            route_id == s[0].route_id,
            first_mismatch(s, 0) == s.len(),
            first_duplicate(s, 0) == first_duplicate(s, i as int),
        decreases obs.len() - i,
    {
        if obs[i].day.number() == obs[i + 1].day.number() {
            return Err(FlowError::DuplicateObservation { route_id, day: obs[i].day });
        }
        i += 1;
    }

    if let Some(d) = &denominator {
        if !dec_lt(&Dec::zero(), d) {
            return Err(FlowError::NonPositiveDenominator(*d));
        }
    }

    let window_days = window.calendar_day_count();

    let mut a_total = Quantity::zero();
    let mut b_total = Quantity::zero();
    let mut path: Vec<CumulativePoint> = Vec::new();
    let mut sign_change_days: u32 = 0;
    let mut prev_sign: i8 = 0;
    let mut days_negative: u32 = 0;
    let mut cumulative = Dec::zero();
    let mut peak = Dec::zero();
    let mut trough = Dec::zero();
    let ghost mut pairs: Seq<(int, int)> = Seq::empty();

    let mut i: usize = 0;
    while i < obs.len()
        invariant
            s == obs@,
            s == sorted_flows(observations@),
            s.len() > 0,
            s.len() < 0xffff_ffff,
            i <= s.len(),
            flow_checks_pass(s, denominator),
            flow_run(s, i as int) == Some((pair(a_total.value()), pair(b_total.value()), pairs)),
            pairs.len() == i,
            path@.len() == i,
            forall|j: int|
                0 <= j < i ==> (#[trigger] path@[j]).day == s[j].day && pair(
                    path@[j].cumulative_net,
                ) == pairs[j],
            i > 0 ==> pair(cumulative) == pairs.last(),
            i > 0 ==> pair(peak) == path_peak(pairs),
            i > 0 ==> pair(trough) == path_trough(pairs),
            days_negative == count_negative(pairs),
            days_negative <= i,
            sign_change_days == sign_changes(pairs),
            sign_change_days <= i,
            prev_sign == last_nonzero_sign(pairs),
            flow_steps_exact(s, i as int) ==> {
                &&& a_total.value().units() == forward_units(s, i as int)
                &&& b_total.value().units() == reverse_units(s, i as int)
                &&& (i > 0 ==> cumulative.units() == forward_units(s, i as int) - reverse_units(
                    s,
                    i as int,
                ))
            },
        decreases obs.len() - i,
    {
        let o = &obs[i];
        let qa = o.gross_a_to_b.as_decimal();
        let qb = o.gross_b_to_a.as_decimal();
        let new_a = match a_total.checked_add(o.gross_a_to_b) {
            Ok(q) => q,
            Err(e) => {
                proof {
                    lemma_flow_run_stays_none(s, i + 1, s.len() as int);
                }
                return Err(e);
            },
        };
        let new_b = match b_total.checked_add(o.gross_b_to_a) {
            Ok(q) => q,
            Err(e) => {
                proof {
                    lemma_flow_run_stays_none(s, i + 1, s.len() as int);
                }
                return Err(e);
            },
        };
        let day_net = match dec_sub(&qa, &qb) {
            Some(x) => x,
            None => {
                proof {
                    lemma_flow_run_stays_none(s, i + 1, s.len() as int);
                }
                return Err(FlowError::QuantityOverflow);
            },
        };
        let cum = if i == 0 {
            day_net
        } else {
            match dec_add(&cumulative, &day_net) {
                Some(x) => x,
                None => {
                    proof {
                        lemma_flow_run_stays_none(s, i + 1, s.len() as int);
                    }
                    return Err(FlowError::QuantityOverflow);
                },
            }
        };
        let ghost old_pairs = pairs;
        proof {
            pairs = pairs.push(pair(cum));
            assert(pairs.drop_last() =~= old_pairs);
        }
        a_total = new_a;
        b_total = new_b;
        cumulative = cum;
        if i == 0 {
            peak = cum;
            trough = cum;
        } else {
            if !dec_lt(&cum, &peak) {
                peak = cum;
            }
            if dec_lt(&cum, &trough) {
                trough = cum;
            }
        }
        if dec_lt(&cum, &Dec::zero()) {
            days_negative += 1;
        }
        let sign = dec_sign(&cum);
        if prev_sign != 0 && sign != 0 && sign != prev_sign {
            sign_change_days += 1;
        }
        if sign != 0 {
            prev_sign = sign;
        }
        path.push(CumulativePoint { day: o.day, cumulative_net: cum });
        i += 1;
    }

    let net_total = match dec_sub(&a_total.as_decimal(), &b_total.as_decimal()) {
        Some(x) => x,
        None => return Err(FlowError::QuantityOverflow),
    };
    let reversal_ratio = if dec_lt(&Dec::zero(), &a_total.as_decimal()) {
        match dec_div(&b_total.as_decimal(), &a_total.as_decimal()) {
            Some(x) => Some(x),
            None => return Err(FlowError::QuantityOverflow),
        }
    } else {
        None
    };
    let net_over_denominator = match &denominator {
        Some(d) => match dec_div(&net_total, d) {
            Some(x) => Some(x),
            None => return Err(FlowError::QuantityOverflow),
        },
        None => None,
    };

    Ok(FlowSeriesSummary {
        route_id,
        window_name: window.name.clone(),
        unit,
        attribution,
        observed_days: obs.len(),
        window_days,
        gross_a_to_b_total: a_total,
        gross_b_to_a_total: b_total,
        net_total,
        cumulative_path: path,
        peak_cumulative_net: peak,
        trough_cumulative_net: trough,
        days_cumulative_negative: days_negative,
        reversal_ratio,
        net_over_denominator,
        sign_change_days,
        interpretation_boundary: "Flow accounting only. Gross and net flows are not migration labels.",
    })
}

/// Inclusive calendar length of a window.
pub fn inclusive_day_count(window: &EventWindow) -> (r: usize)
    requires
        window.start.num() <= window.end.num(),
    ensures
        r == window.end.num() - window.start.num() + 1,
{
    window.calendar_day_count()
}

} // verus!
