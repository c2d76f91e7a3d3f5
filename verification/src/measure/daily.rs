//! Daily simple returns from a single asset's priced observations.
//!
//! Convention: **simple** returns, `r_t = p_t / p_{t-1} - 1`. Returns are
//! built only when both the current calendar day and the immediately
//! preceding calendar day have prices. A missing row or a missing price
//! breaks the chain: the next observed price does not become a multi-day
//! return mislabeled as daily. A zero earlier price breaks it too.
use crate::day::Day;
use crate::dec::{dec_div, dec_is_zero, dec_sub, pair, pdiv, psub, Dec};
use crate::identity::AssetKey;
use crate::response::ResponseObservation;
use crate::sort::{lemma_stable_sort, sort_by_key, stable_sort};
use vstd::prelude::*;
use vstd::string::*;

verus! {

#[derive(Debug, PartialEq, Eq)]
pub enum MeasureError {
    EmptySeries(String),
    MixedAssets { first: String, other: String },
    DuplicateObservation { asset: String, day: Day },
    /// A return or difference of returns does not fit a decimal.
    ArithmeticOverflow,
}

#[derive(Debug, Clone, Copy, PartialEq, Eq)]
pub struct DailyReturn {
    /// The day of `p_t` (the return is attributed to this day).
    pub day: Day,
    /// The day of `p_{t-1}` — exactly one calendar day before `day`.
    pub prev_day: Day,
    /// `p_t / p_{t-1} - 1`.
    pub value: Dec,
}

/// A daily return as plain values: its day, the previous day, and the value's pair.
pub open spec fn return_view(r: DailyReturn) -> (int, int, (int, int)) {
    (r.day.num(), r.prev_day.num(), pair(r.value))
}

/// Whether observation `i` repeats the day of an earlier observation.
pub open spec fn day_seen_before(s: Seq<ResponseObservation>, i: int) -> bool {
    exists|j: int| 0 <= j < i && s[j].day.num() == s[i].day.num()
}

/// The first index at or after `i` whose asset differs from the first or
/// whose day was seen before; `s.len()` if none.
pub open spec fn first_invalid(s: Seq<ResponseObservation>, i: int) -> int
    decreases s.len() - i,
{
    if i >= s.len() || i < 0 {
        s.len() as int
    } else if s[i].asset_key.0@ != s[0].asset_key.0@ || day_seen_before(s, i) {
        i
    } else {
        first_invalid(s, i + 1)
    }
}

/// Whether `r` is the outcome of validating the series `s` as one asset with
/// no repeated day, `Ok(v)` carrying `ok` on success.
pub open spec fn validation_outcome<V>(r: Result<V, MeasureError>, s: Seq<ResponseObservation>) -> bool {
    let k = first_invalid(s, 0);
    &&& (s.len() > 0 && k < s.len() && s[k].asset_key.0@ != s[0].asset_key.0@) ==> (r matches Err(
        MeasureError::MixedAssets { first, other },
    ) && first@ == s[0].asset_key.0@ && other@ == s[k].asset_key.0@)
    &&& (s.len() > 0 && k < s.len() && s[k].asset_key.0@ == s[0].asset_key.0@) ==> (r matches Err(
        MeasureError::DuplicateObservation { asset, day },
    ) && asset@ == s[0].asset_key.0@ && day == s[k].day)
}

/// The first invalid index from `i` on is at most the length.
pub proof fn lemma_first_invalid_le(s: Seq<ResponseObservation>, i: int)
    requires
        0 <= i,
    ensures
        first_invalid(s, i) <= s.len(),
    decreases s.len() - i,
{
    if i < s.len() {
        lemma_first_invalid_le(s, i + 1);
    }
}

/// Whether `s` holds one asset and no day twice.
pub open spec fn series_valid(s: Seq<ResponseObservation>) -> bool {
    first_invalid(s, 0) == s.len()
}

/// Validates a (possibly unsorted) single-asset observation series: no mixed
/// `asset_key`s, no duplicate `day`s. An empty slice is not an error here and
/// yields `Ok(None)`.
pub fn validate_series(observations: &Vec<ResponseObservation>) -> (r: Result<
    Option<AssetKey>,
    MeasureError,
>)
    ensures
        validation_outcome(r, observations@),
        r is Ok <==> series_valid(observations@),
        observations@.len() == 0 ==> r == Ok::<Option<AssetKey>, MeasureError>(None),
        (observations@.len() > 0 && r is Ok) ==> r == Ok::<Option<AssetKey>, MeasureError>(
            Some(observations@[0].asset_key),
        ),
{
    if observations.len() == 0 {
        return Ok(None);
    }
    let asset_key = observations[0].asset_key.clone();
    let mut i: usize = 0;
    while i < observations.len()
        invariant
            observations@.len() > 0,
            i <= observations@.len(),
            asset_key == observations@[0].asset_key,
            first_invalid(observations@, 0) == first_invalid(observations@, i as int),
        decreases observations.len() - i,
    {
        if !observations[i].asset_key.same(&asset_key) {
            return Err(
                MeasureError::MixedAssets {
                    first: asset_key.to_text(),
                    other: observations[i].asset_key.to_text(),
                },
            );
        }
        let mut j: usize = 0;
        while j < i
            invariant
                observations@.len() > 0,
                i < observations@.len(),
                j <= i,
                asset_key == observations@[0].asset_key,
                observations@[i as int].asset_key.0@ == observations@[0].asset_key.0@,
                first_invalid(observations@, 0) == first_invalid(observations@, i as int),
                forall|t: int| 0 <= t < j ==> observations@[t].day.num() != observations@[i as int].day.num(),
            decreases i - j,
        {
            if observations[j].day.number() == observations[i].day.number() {
                proof {
                    assert(day_seen_before(observations@, i as int));
                }
                return Err(
                    MeasureError::DuplicateObservation {
                        asset: asset_key.to_text(),
                        day: observations[i].day,
                    },
                );
            }
            j += 1;
        }
        i += 1;
    }
    Ok(Some(asset_key))
}

/// Sorts by day and validates as a single-asset, duplicate-free series. An
/// empty input is an error here.
pub fn sorted_validated(observations: Vec<ResponseObservation>) -> (r: Result<
    (AssetKey, Vec<ResponseObservation>),
    MeasureError,
>)
    ensures
        observations@.len() == 0 ==> (r matches Err(MeasureError::EmptySeries(m)) && m@
            == "<unknown>"@),
        validation_outcome(r, stable_sort(observations@)),
        observations@.len() > 0 ==> (r is Ok <==> series_valid(stable_sort(observations@))),
        r matches Ok(v) ==> (v.1@ == stable_sort(observations@) && v.1@.len() > 0 && v.0
            == v.1@[0].asset_key && series_valid(v.1@)),
{
    let ghost input = observations@;
    let sorted = sort_by_key(observations);
    proof {
        lemma_stable_sort(input);
    }
    match validate_series(&sorted) {
        Err(e) => Err(e),
        Ok(Some(key)) => Ok((key, sorted)),
        Ok(None) => Err(MeasureError::EmptySeries(String::from_str("<unknown>"))),
    }
}

/// The observations of `s` that carry a price, in order.
pub open spec fn priced_of(s: Seq<ResponseObservation>) -> Seq<ResponseObservation>
    decreases s.len(),
{
    if s.len() == 0 {
        Seq::empty()
    } else {
        priced_of(s.drop_last()) + if s.last().price is Some {
            seq![s.last()]
        } else {
            Seq::empty()
        }
    }
}

/// Every observation in `priced_of(s)` carries a price.
pub proof fn lemma_priced_have_prices(s: Seq<ResponseObservation>)
    ensures
        forall|i: int| 0 <= i < priced_of(s).len() ==> (#[trigger] priced_of(s)[i]).price is Some,
    decreases s.len(),
{
    if s.len() > 0 {
        lemma_priced_have_prices(s.drop_last());
        let p = priced_of(s.drop_last());
        assert forall|i: int| 0 <= i < priced_of(s).len() implies (#[trigger] priced_of(s)[i]).price is Some by {
            if i < p.len() {
                assert(priced_of(s)[i] == p[i]);
            }
        }
    }
}

/// The observations that carry a price, in order.
pub fn priced_only(sorted: &Vec<ResponseObservation>) -> (r: Vec<ResponseObservation>)
    ensures
        r@ == priced_of(sorted@),
{
    let mut out: Vec<ResponseObservation> = Vec::new();
    let mut i: usize = 0;
    while i < sorted.len()
        invariant
            i <= sorted.len(),
            out@ == priced_of(sorted@.take(i as int)),
        decreases sorted.len() - i,
    {
        proof {
            assert(sorted@.take(i + 1).drop_last() =~= sorted@.take(i as int));
        }
        if sorted[i].price.is_some() {
            out.push(sorted[i].clone());
        }
        proof {
            assert(out@ =~= priced_of(sorted@.take(i + 1)));
        }
        i += 1;
    }
    proof {
        assert(sorted@.take(i as int) =~= sorted@);
    }
    out
}

/// The return from `prev` to `cur` when they are one calendar day apart,
/// both priced and the earlier price is non-zero: `Some(Some(..))`; `Some(None)`
/// when the chain breaks; `None` when the return does not fit.
pub open spec fn step_return(prev: ResponseObservation, cur: ResponseObservation) -> Option<
    Option<(int, int, (int, int))>,
> {
    if cur.day.num() - prev.day.num() != 1 || prev.price is None || cur.price is None
        || prev.price.unwrap().units() == 0 {
        Some(None)
    } else {
        match pdiv(pair(cur.price.unwrap()), pair(prev.price.unwrap())) {
            Some(q) => match psub(q, (1, 0)) {
                Some(v) => Some(Some((cur.day.num(), prev.day.num(), v))),
                None => None,
            },
            None => None,
        }
    }
}

/// The daily returns of the pairs of neighbours among the first `n`
/// observations of `s`; `None` once a return does not fit.
pub open spec fn returns_upto(s: Seq<ResponseObservation>, n: int) -> Option<
    Seq<(int, int, (int, int))>,
>
    decreases n,
{
    if n <= 1 {
        Some(Seq::empty())
    } else {
        match (returns_upto(s, n - 1), step_return(s[n - 2], s[n - 1])) {
            (Some(acc), Some(Some(x))) => Some(acc.push(x)),
            (Some(acc), Some(None)) => Some(acc),
            _ => None,
        }
    }
}

/// The daily returns of a sorted series.
pub open spec fn returns_of(s: Seq<ResponseObservation>) -> Option<Seq<(int, int, (int, int))>> {
    returns_upto(s, s.len() as int)
}

proof fn lemma_returns_upto_span(s: Seq<ResponseObservation>, n: int)
    requires
        returns_upto(s, n) is Some,
    ensures
        forall|i: int|
            0 <= i < returns_upto(s, n).unwrap().len() ==> (#[trigger] returns_upto(s, n).unwrap()[i]).0
                == returns_upto(s, n).unwrap()[i].1 + 1,
        n >= 1 ==> returns_upto(s, n).unwrap().len() <= n - 1,
        n < 1 ==> returns_upto(s, n).unwrap().len() == 0,
    decreases n,
{
    if n > 1 {
        lemma_returns_upto_span(s, n - 1);
    }
}

/// Every daily return spans exactly one calendar day (its earlier price is
/// from the day before), and `n` observations give at most `n - 1` returns.
pub proof fn law_returns_span_one_day(s: Seq<ResponseObservation>)
    requires
        returns_of(s) is Some,
    ensures
        forall|i: int|
            0 <= i < returns_of(s).unwrap().len() ==> (#[trigger] returns_of(s).unwrap()[i]).0
                == returns_of(s).unwrap()[i].1 + 1,
        returns_of(s).unwrap().len() + 1 <= s.len() || returns_of(s).unwrap().len() == 0,
{
    lemma_returns_upto_span(s, s.len() as int);
}

proof fn lemma_returns_none_stays(s: Seq<ResponseObservation>, n: int, m: int)
    requires
        n <= m,
        returns_upto(s, n) is None,
    ensures
        returns_upto(s, m) is None,
    decreases m - n,
{
    if n < m {
        lemma_returns_none_stays(s, n, m - 1);
    }
}

/// Pure transform: sorted single-asset observations -> daily simple returns.
/// A missing calendar day, a missing price on either side, or a zero earlier
/// price breaks the return chain; a return that does not fit is an error.
pub fn returns_from_sorted(sorted: &Vec<ResponseObservation>) -> (r: Result<
    Vec<DailyReturn>,
    MeasureError,
>)
    ensures
        returns_of(sorted@) is None ==> r == Err::<Vec<DailyReturn>, MeasureError>(
            MeasureError::ArithmeticOverflow,
        ),
        returns_of(sorted@) is Some ==> (r matches Ok(v) && v@.map_values(
            |x: DailyReturn| return_view(x),
        ) == returns_of(sorted@).unwrap()),
{
    let mut out: Vec<DailyReturn> = Vec::new();
    if sorted.len() < 2 {
        proof {
            assert(out@.map_values(|x: DailyReturn| return_view(x)) =~= Seq::<
                (int, int, (int, int)),
            >::empty());
        }
        return Ok(out);
    }
    let mut i: usize = 1;
    proof {
        assert(out@.map_values(|x: DailyReturn| return_view(x)) =~= Seq::<
            (int, int, (int, int)),
        >::empty());
    }
    while i < sorted.len()
        invariant
            1 <= i <= sorted.len(),
            returns_upto(sorted@, i as int) == Some(
                out@.map_values(|x: DailyReturn| return_view(x)),
            ),
        decreases sorted.len() - i,
    {
        let prev = &sorted[i - 1];
        let cur = &sorted[i];
        let ghost before = out@;
        proof {
            use_type_invariant(&prev.day);
            use_type_invariant(&cur.day);
        }
        if cur.day.number() as i64 - prev.day.number() as i64 == 1 {
            match (prev.price, cur.price) {
                (Some(pp), Some(cp)) => {
                    if !dec_is_zero(&pp) {
                        let v = match dec_div(&cp, &pp) {
                            Some(q) => dec_sub(&q, &Dec::from_int(1)),
                            None => None,
                        };
                        match v {
                            Some(v) => {
                                out.push(DailyReturn { day: cur.day, prev_day: prev.day, value: v });
                                proof {
                                    assert(out@.map_values(|x: DailyReturn| return_view(x))
                                        =~= before.map_values(|x: DailyReturn| return_view(x)).push(
                                        (cur.day.num(), prev.day.num(), pair(v)),
                                    ));
                                }
                            },
                            None => {
                                proof {
                                    lemma_returns_none_stays(sorted@, i + 1, sorted@.len() as int);
                                }
                                return Err(MeasureError::ArithmeticOverflow);
                            },
                        }
                    }
                },
                _ => {},
            }
        }
        i += 1;
    }
    Ok(out)
}

/// Whether `e` is the error that the daily returns of the non-empty sorted
/// series `s` report: its first invalid observation if it has one, an
/// overflow otherwise.
pub open spec fn returns_error_is(e: MeasureError, s: Seq<ResponseObservation>) -> bool {
    if !series_valid(s) {
        validation_outcome(Err::<(), MeasureError>(e), s)
    } else {
        e == MeasureError::ArithmeticOverflow
    }
}

/// Daily simple returns for one asset's observation series (any order).
pub fn daily_returns(observations: Vec<ResponseObservation>) -> (r: Result<
    Vec<DailyReturn>,
    MeasureError,
>)
    ensures
        observations@.len() == 0 ==> (r matches Err(MeasureError::EmptySeries(m)) && m@
            == "<unknown>"@),
        validation_outcome(r, stable_sort(observations@)),
        (observations@.len() > 0 && series_valid(stable_sort(observations@))) ==> (
        returns_of(stable_sort(observations@)) is None ==> r == Err::<
            Vec<DailyReturn>,
            MeasureError,
        >(MeasureError::ArithmeticOverflow)),
        (observations@.len() > 0 && series_valid(stable_sort(observations@))) ==> (
        returns_of(stable_sort(observations@)) is Some ==> (r matches Ok(v) && v@.map_values(
            |x: DailyReturn| return_view(x),
        ) == returns_of(stable_sort(observations@)).unwrap())),
        r is Ok <==> (observations@.len() > 0 && series_valid(stable_sort(observations@)) && returns_of(
            stable_sort(observations@),
        ) is Some),
{
    let (_, sorted) = match sorted_validated(observations) {
        Ok(v) => v,
        Err(e) => return Err(e),
    };
    returns_from_sorted(&sorted)
}

} // verus!
