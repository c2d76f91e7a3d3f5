//! Cumulative simple return from an anchor price to N observed trading
//! sessions after the event start.
//!
//! "N sessions after event start" counts observed *priced* observations, not
//! calendar days — a missing horizon is `None`, never approximated by the
//! nearest available day and never coerced to `0`.
//!
//! Anchor price = the last priced observation on or before `event_start`. If
//! there is none, every horizon is `None`.
use crate::day::Day;
use crate::dec::{dec_div, dec_is_zero, dec_sub, pair, pdiv, psub, Dec};
use crate::identity::AssetKey;
use crate::measure::daily::{
    lemma_priced_have_prices, priced_of, priced_only, series_valid, sorted_validated,
    validation_outcome, MeasureError,
};
use crate::response::ResponseObservation;
use crate::sort::{lemma_stable_sort, stable_sort};
use vstd::prelude::*;

verus! {

#[derive(Debug, Clone, Copy, PartialEq, Eq)]
pub struct HorizonReturn {
    pub horizon_sessions: usize,
    /// Day of the priced observation `horizon_sessions` sessions after the
    /// anchor. `None` if that many later priced sessions are not observed.
    pub day: Option<Day>,
    pub cumulative_return: Option<Dec>,
}

#[derive(Debug, PartialEq, Eq)]
pub struct HorizonReturns {
    pub asset_key: AssetKey,
    pub event_start: Day,
    pub anchor_day: Option<Day>,
    pub anchor_price: Option<Dec>,
    pub horizons: Vec<HorizonReturn>,
}

/// The last index of `p` whose day is on or before day `d`; `-1` if none.
pub open spec fn last_on_or_before(p: Seq<ResponseObservation>, d: int) -> int
    decreases p.len(),
{
    if p.len() == 0 {
        -1
    } else if p.last().day.num() <= d {
        p.len() - 1
    } else {
        last_on_or_before(p.drop_last(), d)
    }
}

/// The horizon `h` sessions after anchor index `a` of the priced series `p`:
/// the day reached and the cumulative return; `None` if the return does not fit.
pub open spec fn horizon_of(p: Seq<ResponseObservation>, a: int, h: int) -> Option<
    (Option<Day>, Option<(int, int)>),
> {
    if a < 0 || a + h >= p.len() {
        Some((None, None))
    } else {
        let target = p[a + h];
        let anchor = p[a].price.unwrap();
        if anchor.units() == 0 {
            Some((Some(target.day), None))
        } else {
            match pdiv(pair(target.price.unwrap()), pair(anchor)) {
                Some(q) => match psub(q, (1, 0)) {
                    Some(v) => Some((Some(target.day), Some(v))),
                    None => None,
                },
                None => None,
            }
        }
    }
}

/// A horizon is measured exactly or not at all: its day is that of the
/// priced session exactly `hs[j]` sessions after the anchor; when no anchor
/// exists or that many later priced sessions are not observed, both its day
/// and its return are missing, never taken from the nearest observed day;
/// and a return is never present without its day.
pub proof fn law_horizon_exact_or_missing(
    h: HorizonReturns,
    obs: Seq<ResponseObservation>,
    event_start: Day,
    hs: Seq<usize>,
    j: int,
)
    requires
        horizons_of(h, obs, event_start, hs),
        horizons_fit(
            priced_of(stable_sort(obs)),
            last_on_or_before(priced_of(stable_sort(obs)), event_start.num()),
            hs,
        ),
        0 <= j < hs.len(),
    ensures
        ({
            let p = priced_of(stable_sort(obs));
            let a = last_on_or_before(p, event_start.num());
            &&& h.horizons@[j].horizon_sessions == hs[j]
            &&& (a < 0 || a + hs[j] >= p.len()) ==> (h.horizons@[j].day is None
                && h.horizons@[j].cumulative_return is None)
            &&& (0 <= a && a + hs[j] < p.len()) ==> h.horizons@[j].day == Some(p[a + hs[j]].day)
            &&& h.horizons@[j].cumulative_return is Some ==> h.horizons@[j].day is Some
        }),
{
    let p = priced_of(stable_sort(obs));
    let a = last_on_or_before(p, event_start.num());
    assert(horizon_of(p, a, hs[j] as int) is Some);
}

/// Whether every requested horizon's return fits.
pub open spec fn horizons_fit(p: Seq<ResponseObservation>, a: int, hs: Seq<usize>) -> bool {
    forall|j: int| 0 <= j < hs.len() ==> (#[trigger] horizon_of(p, a, hs[j] as int)) is Some
}

fn last_priced_on_or_before(p: &Vec<ResponseObservation>, d: Day) -> (r: Option<usize>)
    ensures
        r is None <==> last_on_or_before(p@, d.num()) == -1,
        r is Some ==> r.unwrap() == last_on_or_before(p@, d.num()),
        r is Some ==> r.unwrap() < p@.len(),
{
    let mut k: usize = p.len();
    proof {
        assert(p@.take(k as int) =~= p@);
    }
    while k > 0
        invariant
            k <= p@.len(),
            last_on_or_before(p@, d.num()) == last_on_or_before(p@.take(k as int), d.num()),
        decreases k,
    {
        proof {
            assert(p@.take(k as int).drop_last() =~= p@.take(k - 1));
        }
        if p[k - 1].day.number() <= d.number() {
            return Some(k - 1);
        }
        k -= 1;
    }
    None
}

/// `h` holds the cumulative returns of the series `obs` (any order) from the
/// last priced session on or before `event_start`, one per horizon of `hs`.
pub open spec fn horizons_of(h: HorizonReturns, obs: Seq<ResponseObservation>, event_start: Day, hs: Seq<usize>) -> bool {
    let s = stable_sort(obs);
    let p = priced_of(s);
    let a = last_on_or_before(p, event_start.num());
    &&& h.asset_key == s[0].asset_key
    &&& h.event_start == event_start
    &&& (a < 0 ==> h.anchor_day is None && h.anchor_price is None)
    &&& (a >= 0 ==> h.anchor_day == Some(p[a].day) && h.anchor_price == p[a].price)
    &&& h.horizons@.len() == hs.len()
    &&& forall|j: int|
        0 <= j < hs.len() ==> {
            let hv = horizon_of(p, a, hs[j] as int).unwrap();
            &&& (#[trigger] h.horizons@[j]).horizon_sessions == hs[j]
            &&& h.horizons@[j].day == hv.0
            &&& (h.horizons@[j].cumulative_return is Some <==> hv.1 is Some)
            &&& (hv.1 is Some ==> pair(h.horizons@[j].cumulative_return.unwrap()) == hv.1.unwrap())
        }
}

/// Cumulative returns `horizon_sessions` priced sessions after the anchor.
pub fn cumulative_return_from_event(
    observations: Vec<ResponseObservation>,
    event_start: Day,
    horizon_sessions: &Vec<usize>,
) -> (r: Result<HorizonReturns, MeasureError>)
    requires
        forall|j: int|
            0 <= j < horizon_sessions@.len() ==> horizon_sessions@[j] + observations@.len()
                <= usize::MAX,
    ensures
        observations@.len() == 0 ==> (r matches Err(MeasureError::EmptySeries(m)) && m@
            == "<unknown>"@),
        validation_outcome(r, stable_sort(observations@)),
        ({
            let s = stable_sort(observations@);
            let p = priced_of(s);
            let a = last_on_or_before(p, event_start.num());
            &&& (s.len() > 0 && series_valid(s)) ==> (r is Ok <==> horizons_fit(
                p,
                a,
                horizon_sessions@,
            ))
            &&& (s.len() > 0 && series_valid(s) && r is Err) ==> r == Err::<
                HorizonReturns,
                MeasureError,
            >(MeasureError::ArithmeticOverflow)
            &&& r matches Ok(h) ==> horizons_of(h, observations@, event_start, horizon_sessions@)
        }),
{
    let ghost n_obs = observations@.len();
    let ghost input = observations@;
    proof {
        lemma_stable_sort(input);
    }
    let (asset_key, sorted) = match sorted_validated(observations) {
        Ok(v) => v,
        Err(e) => return Err(e),
    };
    let priced = priced_only(&sorted);
    proof {
        lemma_priced_have_prices(sorted@);
        lemma_priced_len(sorted@);
    }
    let anchor_idx = last_priced_on_or_before(&priced, event_start);
    let (anchor_day, anchor_price) = match anchor_idx {
        Some(i) => (Some(priced[i].day), priced[i].price),
        None => (None, None),
    };
    let ghost p = priced@;
    let ghost a = last_on_or_before(p, event_start.num());
    let mut horizons: Vec<HorizonReturn> = Vec::new();
    let mut j: usize = 0;
    while j < horizon_sessions.len()
        invariant
            j <= horizon_sessions@.len(),
            p == priced@,
            input == observations@,
            stable_sort(input).len() > 0,
            series_valid(stable_sort(input)),
            p == priced_of(stable_sort(input)),
            p.len() <= n_obs,
            a == last_on_or_before(p, event_start.num()),
            anchor_idx is None <==> a == -1,
            anchor_idx is Some ==> anchor_idx.unwrap() == a,
            anchor_idx is Some ==> anchor_idx.unwrap() < p.len(),
            forall|t: int| 0 <= t < p.len() ==> (#[trigger] p[t]).price is Some,
            forall|t: int|
                0 <= t < horizon_sessions@.len() ==> horizon_sessions@[t] + n_obs <= usize::MAX,
            horizons@.len() == j,
            forall|t: int| 0 <= t < j ==> (#[trigger] horizon_of(p, a, horizon_sessions@[t] as int)) is Some,
            forall|t: int|
                0 <= t < j ==> {
                    let hv = horizon_of(p, a, horizon_sessions@[t] as int).unwrap();
                    &&& (#[trigger] horizons@[t]).horizon_sessions == horizon_sessions@[t]
                    &&& horizons@[t].day == hv.0
                    &&& (horizons@[t].cumulative_return is Some <==> hv.1 is Some)
                    &&& (hv.1 is Some ==> pair(horizons@[t].cumulative_return.unwrap())
                        == hv.1.unwrap())
                },
        decreases horizon_sessions.len() - j,
    {
        let h = horizon_sessions[j];
        let item = match anchor_idx {
            Some(i) => {
                assert(horizon_sessions@[j as int] + n_obs <= usize::MAX);
                let target = i + h;
                if target < priced.len() {
                    let anchor_p = priced[i].price.unwrap();
                    let target_p = priced[target].price.unwrap();
                    if dec_is_zero(&anchor_p) {
                        HorizonReturn { horizon_sessions: h, day: Some(priced[target].day), cumulative_return: None }
                    } else {
                        let v = match dec_div(&target_p, &anchor_p) {
                            Some(q) => dec_sub(&q, &Dec::from_int(1)),
                            None => None,
                        };
                        match v {
                            Some(v) => HorizonReturn {
                                horizon_sessions: h,
                                day: Some(priced[target].day),
                                cumulative_return: Some(v),
                            },
                            None => {
                                proof {
                                    assert(horizon_of(p, a, horizon_sessions@[j as int] as int) is None);
                                }
                                return Err(MeasureError::ArithmeticOverflow);
                            },
                        }
                    }
                } else {
                    HorizonReturn { horizon_sessions: h, day: None, cumulative_return: None }
                }
            },
            None => HorizonReturn { horizon_sessions: h, day: None, cumulative_return: None },
        };
        horizons.push(item);
        j += 1;
    }
    Ok(HorizonReturns { asset_key, event_start, anchor_day, anchor_price, horizons })
}

/// The priced observations are no more than the observations.
pub proof fn lemma_priced_len(s: Seq<ResponseObservation>)
    ensures
        priced_of(s).len() <= s.len(),
    decreases s.len(),
{
    if s.len() > 0 {
        lemma_priced_len(s.drop_last());
    }
}

} // verus!
