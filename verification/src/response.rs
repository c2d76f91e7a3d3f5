//! Market-response accounting (separate from directional flow).
//!
//! Metric definition: `market_response.v1`.
//!
//! Answers what changed in observed series around a window — not why.
use crate::day::Day;
use crate::dec::{dec_div, dec_is_zero, dec_lt, dec_sub, pair, pdiv, psub, Dec};
use crate::event::{session_count, EventWindow, SessionCalendar};
use crate::identity::AssetKey;
use crate::measure::stats::{median, median_of, names};
use crate::sort::{keys_distinct, lemma_stable_sort, lemma_stable_sort_unique, sort_by_key, stable_sort, Keyed};
use vstd::prelude::*;
use vstd::string::*;

verus! {

#[derive(Debug, PartialEq, Eq)]
pub struct ResponseObservation {
    pub asset_key: AssetKey,
    pub day: Day,
    /// Missing price stays missing — never coerced to zero.
    pub price: Option<Dec>,
    /// Missing volume stays missing — never coerced to zero.
    pub volume: Option<Dec>,
}

impl Clone for ResponseObservation {
    fn clone(&self) -> (r: Self)
        ensures
            r == *self,
    {
        ResponseObservation {
            asset_key: self.asset_key.clone(),
            day: self.day,
            price: self.price,
            volume: self.volume,
        }
    }
}

impl Keyed for ResponseObservation {
    open spec fn key(&self) -> int {
        self.day.num()
    }

    fn key_le(&self, other: &Self) -> (r: bool) {
        self.day.number() <= other.day.number()
    }
}

#[derive(Debug, PartialEq, Eq)]
pub struct ResponseSeriesSummary {
    pub asset_key: AssetKey,
    pub window_name: String,
    pub observed_days: usize,
    /// Expected session count under the asset's `SessionCalendar`.
    pub window_days: usize,
    pub days_with_price: usize,
    pub days_with_volume: usize,
    /// `(last_price / first_price) - 1` over in-window days with price, ordered by day.
    /// `None` if fewer than two priced observations.
    pub price_return: Option<Dec>,
    pub first_price: Option<Dec>,
    pub last_price: Option<Dec>,
    /// Median in-window volume / median of the configured baseline window's volumes.
    /// `None` when either median is unavailable or baseline median ≤ 0.
    pub baseline_normalized_volume: Option<Dec>,
    pub window_median_volume: Option<Dec>,
    pub baseline_median_volume: Option<Dec>,
    pub interpretation_boundary: &'static str,
}

impl Clone for ResponseSeriesSummary {
    fn clone(&self) -> (r: Self)
        ensures
            r == *self,
    {
        ResponseSeriesSummary {
            asset_key: self.asset_key.clone(),
            window_name: self.window_name.clone(),
            observed_days: self.observed_days,
            window_days: self.window_days,
            days_with_price: self.days_with_price,
            days_with_volume: self.days_with_volume,
            price_return: self.price_return,
            first_price: self.first_price,
            last_price: self.last_price,
            baseline_normalized_volume: self.baseline_normalized_volume,
            window_median_volume: self.window_median_volume,
            baseline_median_volume: self.baseline_median_volume,
            interpretation_boundary: self.interpretation_boundary,
        }
    }
}

#[derive(Debug, PartialEq, Eq)]
pub enum ResponseError {
    EmptySeries(String),
    MixedAssets { first: String, other: String },
    DuplicateObservation { asset: String, day: Day },
    /// A return or a ratio does not fit a decimal.
    ArithmeticOverflow,
}

/// The first index at or after `i` whose asset differs from `s[0]`'s; `s.len()` if none.
pub open spec fn first_other_asset(s: Seq<ResponseObservation>, i: int) -> int
    decreases s.len() - i,
{
    if i >= s.len() || i < 0 {
        s.len() as int
    } else if s[i].asset_key.0@ != s[0].asset_key.0@ {
        i
    } else {
        first_other_asset(s, i + 1)
    }
}

/// The first index at or after `i` whose day equals the next one's; `s.len()` if none.
pub open spec fn first_repeated_day(s: Seq<ResponseObservation>, i: int) -> int
    decreases s.len() - i,
{
    if i + 1 >= s.len() || i < 0 {
        s.len() as int
    } else if s[i].day.num() == s[i + 1].day.num() {
        i
    } else {
        first_repeated_day(s, i + 1)
    }
}

/// The prices present in `s`, in order.
pub open spec fn prices_of(s: Seq<ResponseObservation>) -> Seq<Dec>
    decreases s.len(),
{
    if s.len() == 0 {
        Seq::empty()
    } else {
        prices_of(s.drop_last()) + match s.last().price {
            Some(p) => seq![p],
            None => Seq::empty(),
        }
    }
}

/// The volumes present in `s`, in order.
pub open spec fn volumes_of(s: Seq<ResponseObservation>) -> Seq<Dec>
    decreases s.len(),
{
    if s.len() == 0 {
        Seq::empty()
    } else {
        volumes_of(s.drop_last()) + match s.last().volume {
            Some(v) => seq![v],
            None => Seq::empty(),
        }
    }
}

/// `last / first - 1`, or `None` when the first price is zero; the outer
/// `None` when the step does not fit.
pub open spec fn price_return_of(first: Dec, last: Dec) -> Option<Option<(int, int)>> {
    if first.units() == 0 {
        Some(None)
    } else {
        match pdiv(pair(last), pair(first)) {
            Some(q) => match psub(q, (1, 0)) {
                Some(x) => Some(Some(x)),
                None => None,
            },
            None => None,
        }
    }
}

/// Window median volume over the baseline median when both exist and the
/// baseline median is positive; the outer `None` when the ratio does not fit.
pub open spec fn normalized_volume_of(w: Option<(int, int)>, b: Option<(int, int)>) -> Option<
    Option<(int, int)>,
> {
    match (w, b) {
        (Some(x), Some(y)) => if crate::dec::pair_units(y) > 0 {
            match pdiv(x, y) {
                Some(q) => Some(Some(q)),
                None => None,
            }
        } else {
            Some(None)
        },
        _ => Some(None),
    }
}

/// The interpretation note of every response summary.
pub open spec fn response_boundary_note() -> Seq<char> {
    "Market-response accounting only. Does not identify directional capital flow or migration."@
}

/// Whether the sorted series has one asset and no repeated day.
pub open spec fn response_series_ok(s: Seq<ResponseObservation>) -> bool {
    s.len() > 0 && first_other_asset(s, 0) == s.len() && first_repeated_day(s, 0) == s.len()
}

/// Whether `e` is the error that summarizing the sorted series `s` reports:
/// the first check that fails, in the order empty series, asset, repeated
/// day, and otherwise an overflow.
pub open spec fn response_error_is(e: ResponseError, s: Seq<ResponseObservation>) -> bool {
    if s.len() == 0 {
        e matches ResponseError::EmptySeries(m) && m@ == "<unknown>"@
    } else if first_other_asset(s, 0) < s.len() {
        e matches ResponseError::MixedAssets { first, other } && first@ == s[0].asset_key.0@
            && other@ == s[first_other_asset(s, 0)].asset_key.0@
    } else if first_repeated_day(s, 0) < s.len() {
        e matches ResponseError::DuplicateObservation { asset, day } && asset@ == s[0].asset_key.0@
            && day == s[first_repeated_day(s, 0)].day
    } else {
        e == ResponseError::ArithmeticOverflow
    }
}

/// Whether every ratio of the summary fits.
pub open spec fn response_fits(s: Seq<ResponseObservation>, baseline: Seq<ResponseObservation>) -> bool {
    let p = prices_of(s);
    &&& (p.len() >= 2 ==> price_return_of(p[0], p.last()) is Some)
    &&& normalized_volume_of(median_of(volumes_of(s)), median_of(volumes_of(baseline))) is Some
}

/// Whether `r` is the summary of the sorted series `s`.
pub open spec fn response_summary_of(
    r: ResponseSeriesSummary,
    s: Seq<ResponseObservation>,
    window: EventWindow,
    baseline: Seq<ResponseObservation>,
    calendar: SessionCalendar,
) -> bool {
    let p = prices_of(s);
    &&& r.asset_key == s[0].asset_key
    &&& r.window_name@ == window.name@
    &&& r.observed_days == s.len()
    &&& r.window_days == session_count(calendar, window.start.num(), window.end.num())
    &&& r.days_with_price == p.len()
    &&& r.days_with_volume == volumes_of(s).len()
    &&& (p.len() == 0 ==> r.first_price is None && r.last_price is None && r.price_return is None)
    &&& (p.len() == 1 ==> r.first_price == Some(p[0]) && r.last_price == Some(p[0])
        && r.price_return is None)
    &&& (p.len() >= 2 ==> r.first_price == Some(p[0]) && r.last_price == Some(p.last()) && names(
        r.price_return,
        price_return_of(p[0], p.last()).unwrap(),
    ))
    &&& names(r.window_median_volume, median_of(volumes_of(s)))
    &&& names(r.baseline_median_volume, median_of(volumes_of(baseline)))
    &&& names(
        r.baseline_normalized_volume,
        normalized_volume_of(median_of(volumes_of(s)), median_of(volumes_of(baseline))).unwrap(),
    )
    &&& r.interpretation_boundary@ == response_boundary_note()
}

proof fn lemma_present_counts(s: Seq<ResponseObservation>)
    ensures
        prices_of(s).len() <= s.len(),
        volumes_of(s).len() <= s.len(),
    decreases s.len(),
{
    if s.len() > 0 {
        lemma_present_counts(s.drop_last());
    }
}

/// A response summary counts no more priced days and no more days with
/// volume than observed days; it reports a price return only from two
/// priced days or more, and a baseline-normalized volume only over a
/// positive baseline median.
pub proof fn law_response_counts(
    s: Seq<ResponseObservation>,
    window: EventWindow,
    baseline: Seq<ResponseObservation>,
    calendar: SessionCalendar,
    summary: ResponseSeriesSummary,
)
    requires
        response_fits(s, baseline),
        response_summary_of(summary, s, window, baseline, calendar),
    ensures
        summary.days_with_price <= summary.observed_days,
        summary.days_with_volume <= summary.observed_days,
        summary.price_return is Some ==> summary.days_with_price >= 2,
        summary.baseline_normalized_volume is Some ==> (summary.baseline_median_volume matches Some(b)
            && b.units() > 0),
{
    lemma_present_counts(s);
}

/// The prices present in `s`, in order.
fn collect_prices(s: &Vec<ResponseObservation>) -> (r: Vec<Dec>)
    ensures
        r@ == prices_of(s@),
{
    let mut out: Vec<Dec> = Vec::new();
    let mut i: usize = 0;
    while i < s.len()
        invariant
            i <= s.len(),
            out@ == prices_of(s@.take(i as int)),
        decreases s.len() - i,
    {
        proof {
            assert(s@.take(i + 1).drop_last() =~= s@.take(i as int));
        }
        if let Some(p) = s[i].price {
            out.push(p);
        }
        proof {
            assert(out@ =~= prices_of(s@.take(i + 1)));
        }
        i += 1;
    }
    proof {
        assert(s@.take(i as int) =~= s@);
    }
    out
}

/// The volumes present in `s`, in order.
pub fn collect_volumes(s: &Vec<ResponseObservation>) -> (r: Vec<Dec>)
    ensures
        r@ == volumes_of(s@),
{
    let mut out: Vec<Dec> = Vec::new();
    let mut i: usize = 0;
    while i < s.len()
        invariant
            i <= s.len(),
            out@ == volumes_of(s@.take(i as int)),
        decreases s.len() - i,
    {
        proof {
            assert(s@.take(i + 1).drop_last() =~= s@.take(i as int));
        }
        if let Some(v) = s[i].volume {
            out.push(v);
        }
        proof {
            assert(out@ =~= volumes_of(s@.take(i + 1)));
        }
        i += 1;
    }
    proof {
        assert(s@.take(i as int) =~= s@);
    }
    out
}

/// The order of the observations does not matter: two inputs holding the
/// same observations, no day twice, sort to the same series, so summarizing
/// either one succeeds on the same inputs, with a summary described alike,
/// or fails with the same error.
pub proof fn law_response_order_irrelevant(
    a: Seq<ResponseObservation>,
    b: Seq<ResponseObservation>,
    window: EventWindow,
    baseline: Seq<ResponseObservation>,
    calendar: SessionCalendar,
)
    requires
        a.to_multiset() == b.to_multiset(),
        forall|i: int, j: int| 0 <= i < j < a.len() ==> (#[trigger] a[i]).day.num() != (#[trigger] a[j]).day.num(),
    ensures
        stable_sort(a) == stable_sort(b),
        (response_series_ok(stable_sort(a)) && response_fits(stable_sort(a), baseline))
            == (response_series_ok(stable_sort(b)) && response_fits(stable_sort(b), baseline)),
        forall|summary: ResponseSeriesSummary|
            #[trigger] response_summary_of(summary, stable_sort(a), window, baseline, calendar)
                == response_summary_of(summary, stable_sort(b), window, baseline, calendar),
        forall|e: ResponseError|
            #[trigger] response_error_is(e, stable_sort(a)) == response_error_is(e, stable_sort(b)),
{
    assert(keys_distinct(a)) by {
        assert forall|i: int, j: int| 0 <= i < j < a.len() implies #[trigger] a[i].key()
            != #[trigger] a[j].key() by {
            assert(a[i].day.num() != a[j].day.num());
        }
    }
    lemma_stable_sort_unique(a, b);
}

/// Deterministic market-response summary for one asset inside one window.
///
/// `session_calendar` selects the coverage denominator (`window_days`):
/// continuous calendar days vs Monday–Friday exchange sessions.
pub fn account_market_response(
    observations: Vec<ResponseObservation>,
    window: &EventWindow,
    baseline: &Vec<ResponseObservation>,
    session_calendar: SessionCalendar,
) -> (r: Result<ResponseSeriesSummary, ResponseError>)
    requires
        window.start.num() <= window.end.num(),
    ensures
        observations@.len() == 0 ==> (r matches Err(ResponseError::EmptySeries(m)) && m@
            == "<unknown>"@),
        ({
            let s = stable_sort(observations@);
            let k = first_other_asset(s, 0);
            (s.len() > 0 && k < s.len()) ==> (r matches Err(ResponseError::MixedAssets { first, other })
                && first@ == s[0].asset_key.0@ && other@ == s[k].asset_key.0@)
        }),
        ({
            let s = stable_sort(observations@);
            let d = first_repeated_day(s, 0);
            (s.len() > 0 && first_other_asset(s, 0) == s.len() && d < s.len()) ==> (r matches Err(
                ResponseError::DuplicateObservation { asset, day },
            ) && asset@ == s[0].asset_key.0@ && day == s[d].day)
        }),
        response_series_ok(stable_sort(observations@)) ==> (r is Ok <==> response_fits(
            stable_sort(observations@),
            baseline@,
        )),
        response_series_ok(stable_sort(observations@)) && r is Err ==> r == Err::<
            ResponseSeriesSummary,
            ResponseError,
        >(ResponseError::ArithmeticOverflow),
        r matches Ok(summary) ==> response_series_ok(stable_sort(observations@))
            && response_summary_of(
            summary,
            stable_sort(observations@),
            *window,
            baseline@,
            session_calendar,
        ),
        r matches Err(e) ==> response_error_is(e, stable_sort(observations@)),
{
    if observations.len() == 0 {
        return Err(ResponseError::EmptySeries(String::from_str("<unknown>")));
    }
    let ghost input = observations@;
    let obs = sort_by_key(observations);
    let ghost s = obs@;
    proof {
        lemma_stable_sort(input);
    }
    let asset_key = obs[0].asset_key.clone();
    let mut i: usize = 0;
    while i < obs.len()
        invariant
            s == obs@,
            s == stable_sort(observations@),
            s.len() > 0,
            i <= s.len(),
            asset_key == s[0].asset_key,
            first_other_asset(s, 0) == first_other_asset(s, i as int),
        decreases obs.len() - i,
    {
        if !obs[i].asset_key.same(&asset_key) {
            return Err(
                ResponseError::MixedAssets {
                    first: asset_key.to_text(),
                    other: obs[i].asset_key.to_text(),
                },
            );
        }
        i += 1;
    }
    let mut i: usize = 0;
    while i + 1 < obs.len()
        invariant
            s == obs@,
            s == stable_sort(observations@),
            s.len() > 0,
            i < s.len(),
            asset_key == s[0].asset_key,
            first_other_asset(s, 0) == s.len(),
            first_repeated_day(s, 0) == first_repeated_day(s, i as int),
        decreases obs.len() - i,
    {
        if obs[i].day.number() == obs[i + 1].day.number() {
            return Err(
                ResponseError::DuplicateObservation { asset: asset_key.to_text(), day: obs[i].day },
            );
        }
        i += 1;
    }

    let window_days = window.expected_session_count(session_calendar);
    let priced = collect_prices(&obs);
    let window_vols = collect_volumes(&obs);
    let days_with_price = priced.len();
    let days_with_volume = window_vols.len();

    let (first_price, last_price, price_return) = if priced.len() >= 2 {
        let first = priced[0];
        let last = priced[priced.len() - 1];
        let ret = if dec_is_zero(&first) {
            None
        } else {
            match dec_div(&last, &first) {
                Some(q) => match dec_sub(&q, &Dec::from_int(1)) {
                    Some(x) => Some(x),
                    None => return Err(ResponseError::ArithmeticOverflow),
                },
                None => return Err(ResponseError::ArithmeticOverflow),
            }
        };
        (Some(first), Some(last), ret)
    } else if priced.len() == 1 {
        (Some(priced[0]), Some(priced[0]), None)
    } else {
        (None, None, None)
    };

    let baseline_vols = collect_volumes(baseline);
    let window_median_volume = median(&window_vols);
    let baseline_median_volume = median(&baseline_vols);
    let baseline_normalized_volume = match (window_median_volume, baseline_median_volume) {
        (Some(w), Some(b)) => if dec_lt(&Dec::zero(), &b) {
            match dec_div(&w, &b) {
                Some(q) => Some(q),
                None => return Err(ResponseError::ArithmeticOverflow),
            }
        } else {
            None
        },
        _ => None,
    };

    Ok(ResponseSeriesSummary {
        asset_key,
        window_name: window.name.clone(),
        observed_days: obs.len(),
        window_days,
        days_with_price,
        days_with_volume,
        price_return,
        first_price,
        last_price,
        baseline_normalized_volume,
        window_median_volume,
        baseline_median_volume,
        interpretation_boundary: "Market-response accounting only. Does not identify directional capital flow or migration.",
    })
}

} // verus!
