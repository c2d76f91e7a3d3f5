//! Generic decimal statistics shared by the `measure` module.
//!
//! No asset/window semantics live here — only arithmetic on decimals. A sum,
//! difference, product or quotient that does not fit a decimal makes the
//! statistic unavailable rather than wrong.
use crate::dec::{
    dec_add, dec_div, dec_eq, dec_lt, dec_mul, dec_round_dp, dec_sub, decimal_round_dp, pair,
    pair_units, padd, pdiv, pmul, psub, Dec,
};
use crate::sort::{lemma_stable_sort, sort_by_key, stable_sort};
use vstd::prelude::*;

verus! {

/// Minimum number of baseline observations required before a z-score is
/// considered computable. Below this, variance is not meaningfully estimable.
pub const MIN_BASELINE_OBSERVATIONS: usize = 2;

/// Soft adequacy floor for an empirical baseline used as a z-score reference.
///
/// A z-score is still computed when `MIN_BASELINE_OBSERVATIONS ≤ n < this`,
/// but callers should flag `low_baseline` / emit a coverage gap.
pub const ADEQUATE_BASELINE_OBSERVATIONS: usize = 20;

/// The sum of `values` from zero, as `rust_decimal` adds them in order.
pub open spec fn sum_of(values: Seq<Dec>) -> Option<(int, int)>
    decreases values.len(),
{
    if values.len() == 0 {
        Some((0, 0))
    } else {
        match sum_of(values.drop_last()) {
            Some(p) => padd(p, pair(values.last())),
            None => None,
        }
    }
}

/// Arithmetic mean: the sum over the count. `None` for no values.
pub open spec fn mean_of(values: Seq<Dec>) -> Option<(int, int)> {
    if values.len() == 0 {
        None
    } else {
        match sum_of(values) {
            Some(t) => pdiv(t, (values.len() as int, 0)),
            None => None,
        }
    }
}

/// The squared deviation of `v` from `m`.
pub open spec fn square_dev(v: Dec, m: (int, int)) -> Option<(int, int)> {
    match psub(pair(v), m) {
        Some(d) => pmul(d, d),
        None => None,
    }
}

/// The sum of squared deviations from `m`, in order.
pub open spec fn square_dev_sum(values: Seq<Dec>, m: (int, int)) -> Option<(int, int)>
    decreases values.len(),
{
    if values.len() == 0 {
        Some((0, 0))
    } else {
        match (square_dev_sum(values.drop_last(), m), square_dev(values.last(), m)) {
            (Some(acc), Some(d)) => padd(acc, d),
            _ => None,
        }
    }
}

/// Population variance (divisor `n`). `None` for no values.
pub open spec fn variance_of(values: Seq<Dec>) -> Option<(int, int)> {
    match mean_of(values) {
        None => None,
        Some(m) => match square_dev_sum(values, m) {
            Some(q) => pdiv(q, (values.len() as int, 0)),
            None => None,
        },
    }
}

/// Standard median of `values` after a stable sort by value: the middle
/// value for odd `n`, the mean of the two middle values for even `n`.
pub open spec fn median_of(values: Seq<Dec>) -> Option<(int, int)> {
    let s = stable_sort(values);
    let n = values.len();
    if n == 0 {
        None
    } else if n % 2 == 1 {
        Some(pair(s[(n / 2) as int]))
    } else {
        match padd(pair(s[(n / 2 - 1) as int]), pair(s[(n / 2) as int])) {
            Some(t) => pdiv(t, (2, 0)),
            None => None,
        }
    }
}

/// Whether `r` is the decimal named by the pair `p`.
pub open spec fn names(r: Option<Dec>, p: Option<(int, int)>) -> bool {
    &&& (r is Some <==> p is Some)
    &&& r is Some ==> pair(r.unwrap()) == p.unwrap()
}

proof fn lemma_sum_none_stays(values: Seq<Dec>, n: int)
    requires
        0 <= n <= values.len(),
        sum_of(values.take(n)) is None,
    ensures
        sum_of(values) is None,
    decreases values.len() - n,
{
    if n < values.len() {
        assert(values.take(n + 1).drop_last() =~= values.take(n));
        lemma_sum_none_stays(values, n + 1);
    } else {
        assert(values.take(n) =~= values);
    }
}

/// The sum of `values`; `None` if a partial sum does not fit.
pub fn sum(values: &Vec<Dec>) -> (r: Option<Dec>)
    ensures
        names(r, sum_of(values@)),
{
    let mut acc = Dec::zero();
    let mut i: usize = 0;
    proof {
        assert(values@.take(0) =~= Seq::<Dec>::empty());
    }
    while i < values.len()
        invariant
            i <= values.len(),
            sum_of(values@.take(i as int)) == Some(pair(acc)),
        decreases values.len() - i,
    {
        proof {
            assert(values@.take(i + 1).drop_last() =~= values@.take(i as int));
        }
        match dec_add(&acc, &values[i]) {
            Some(x) => acc = x,
            None => {
                proof {
                    lemma_sum_none_stays(values@, i + 1);
                }
                return None;
            },
        }
        i += 1;
    }
    proof {
        assert(values@.take(i as int) =~= values@);
    }
    Some(acc)
}

/// Arithmetic mean. `None` for an empty slice (never coerced to zero) or if
/// the sum does not fit.
pub fn mean(values: &Vec<Dec>) -> (r: Option<Dec>)
    ensures
        names(r, mean_of(values@)),
        values@.len() == 0 ==> r is None,
{
    if values.len() == 0 {
        return None;
    }
    let total = match sum(values) {
        Some(t) => t,
        None => return None,
    };
    dec_div(&total, &Dec::from_count(values.len()))
}

/// Population variance (divisor `n`, not `n - 1`): the baseline window is the
/// full reference population for the window it covers. `None` for an empty
/// slice or if a step does not fit.
pub fn population_variance(values: &Vec<Dec>) -> (r: Option<Dec>)
    ensures
        names(r, variance_of(values@)),
        values@.len() == 0 ==> r is None,
{
    let m = match mean(values) {
        Some(m) => m,
        None => return None,
    };
    let mut acc = Dec::zero();
    let mut i: usize = 0;
    proof {
        assert(values@.take(0) =~= Seq::<Dec>::empty());
    }
    while i < values.len()
        invariant
            i <= values.len(),
            mean_of(values@) == Some(pair(m)),
            square_dev_sum(values@.take(i as int), pair(m)) == Some(pair(acc)),
        decreases values.len() - i,
    {
        proof {
            assert(values@.take(i + 1).drop_last() =~= values@.take(i as int));
        }
        let step = match dec_sub(&values[i], &m) {
            Some(d) => match dec_mul(&d, &d) {
                Some(sq) => dec_add(&acc, &sq),
                None => None,
            },
            None => None,
        };
        match step {
            Some(x) => acc = x,
            None => {
                proof {
                    lemma_square_sum_none_stays(values@, pair(m), i + 1);
                }
                return None;
            },
        }
        i += 1;
    }
    proof {
        assert(values@.take(i as int) =~= values@);
    }
    dec_div(&acc, &Dec::from_count(values.len()))
}

proof fn lemma_square_sum_none_stays(values: Seq<Dec>, m: (int, int), n: int)
    requires
        0 <= n <= values.len(),
        square_dev_sum(values.take(n), m) is None,
    ensures
        square_dev_sum(values, m) is None,
    decreases values.len() - n,
{
    if n < values.len() {
        assert(values.take(n + 1).drop_last() =~= values.take(n));
        lemma_square_sum_none_stays(values, m, n + 1);
    } else {
        assert(values.take(n) =~= values);
    }
}

/// Whether `std` is the standard deviation of a baseline of variance
/// `variance`: none without a variance or for a negative one, exactly zero
/// for a zero one, and otherwise the root that `sqrt` takes of it rounded to
/// 12 decimal places, none where `sqrt` gives none.
pub open spec fn std_from<F: Fn(Dec) -> Option<Dec>>(
    std: Option<Dec>,
    variance: Option<(int, int)>,
    sqrt: F,
) -> bool {
    match variance {
        None => std is None,
        Some(p) => if pair_units(p) < 0 {
            std is None
        } else if pair_units(p) == 0 {
            std is Some && pair(std.unwrap()) == (0int, 0int)
        } else {
            exists|v: Dec, root: Option<Dec>|
                pair(v) == p && #[trigger] sqrt.ensures((v,), root) && (root is None ==> std is None)
                    && (root is Some ==> (std is Some && pair(std.unwrap()) == decimal_round_dp(
                    root.unwrap().mant(),
                    root.unwrap().scl(),
                    12,
                )))
        },
    }
}

/// Population standard deviation: the square root of the population
/// variance, taken by `sqrt` and rounded to 12 decimal places to damp the
/// noise of a binary root. `None` for an empty slice, if the variance does
/// not fit or is negative, or if `sqrt` gives none; a zero variance gives
/// exactly zero.
pub fn population_std<F: Fn(Dec) -> Option<Dec>>(values: &Vec<Dec>, sqrt: &F) -> (r: Option<Dec>)
    requires
        forall|x: Dec| sqrt.requires((x,)),
    ensures
        std_from(r, variance_of(values@), *sqrt),
{
    match population_variance(values) {
        Some(v) => {
            proof {
                crate::dec::lemma_units_sign(v);
            }
            let zero = Dec::zero();
            if dec_lt(&v, &zero) {
                None
            } else if dec_eq(&v, &zero) {
                Some(zero)
            } else {
                match sqrt(v) {
                    Some(root) => Some(dec_round_dp(&root, 12)),
                    None => None,
                }
            }
        },
        None => None,
    }
}

/// Standard median: for even `n`, the average of the two middle values (not
/// the upper of the two, and not the lower). `None` for an empty slice or if
/// that average does not fit.
pub fn median(values: &Vec<Dec>) -> (r: Option<Dec>)
    ensures
        names(r, median_of(values@)),
        values@.len() == 0 ==> r is None,
{
    if values.len() == 0 {
        return None;
    }
    let copy = clone_decimals(values);
    let sorted = sort_by_key(copy);
    proof {
        lemma_stable_sort(values@);
    }
    let n = sorted.len();
    if n % 2 == 1 {
        Some(sorted[n / 2])
    } else {
        match dec_add(&sorted[n / 2 - 1], &sorted[n / 2]) {
            Some(t) => dec_div(&t, &Dec::from_count(2)),
            None => None,
        }
    }
}

/// A copy of a vector of decimals.
pub fn clone_decimals(values: &Vec<Dec>) -> (r: Vec<Dec>)
    ensures
        r@ == values@,
{
    let mut out: Vec<Dec> = Vec::new();
    let mut i: usize = 0;
    while i < values.len()
        invariant
            i <= values.len(),
            out@ == values@.take(i as int),
        decreases values.len() - i,
    {
        out.push(values[i]);
        proof {
            assert(values@.take(i + 1) =~= values@.take(i as int).push(values@[i as int]));
        }
        i += 1;
    }
    proof {
        assert(values@.take(i as int) =~= values@);
    }
    out
}

/// Why a z-score could not be computed. "Unknown" is distinct from "zero":
/// a zero-variance baseline is reported explicitly, not silently as `z = 0`.
#[derive(Debug, Clone, Copy, PartialEq, Eq, Structural)]
pub enum ZScoreUnavailable {
    /// The event-side value itself is missing.
    NoEventValue,
    /// Fewer than [`MIN_BASELINE_OBSERVATIONS`] baseline points.
    InsufficientBaseline { have: usize, need: usize },
    /// Baseline has enough points but zero dispersion.
    ZeroBaselineVariance,
    /// The deviation or its ratio to the dispersion does not fit a decimal.
    ArithmeticOverflow,
}

#[derive(Debug, Clone, Copy, PartialEq, Eq)]
pub struct ZScoreResult {
    pub baseline_n: usize,
    pub baseline_mean: Option<Dec>,
    pub baseline_std: Option<Dec>,
    pub z_score: Option<Dec>,
    /// True when a z-score was computed but `baseline_n` is below
    /// [`ADEQUATE_BASELINE_OBSERVATIONS`].
    pub low_baseline: bool,
    pub unavailable_reason: Option<ZScoreUnavailable>,
}

/// `(event - mean) / std` on pairs, the mean taken as zero if missing.
pub open spec fn z_of(event: Dec, mean: Option<Dec>, std: Dec) -> Option<(int, int)> {
    let m = match mean {
        Some(x) => pair(x),
        None => (0, 0),
    };
    match psub(pair(event), m) {
        Some(d) => pdiv(d, pair(std)),
        None => None,
    }
}

/// Whether `z` is the z-score result of `event_value` against a baseline of
/// mean `mean` and dispersion `std`, the baseline having `n` points.
pub open spec fn z_result_of(
    z: ZScoreResult,
    event_value: Option<Dec>,
    n: nat,
    mean: Option<Dec>,
    std: Option<Dec>,
) -> bool {
    &&& z.baseline_n == n
    &&& z.baseline_mean == mean
    &&& z.baseline_std == std
    &&& event_value is None ==> (z.z_score is None && !z.low_baseline && z.unavailable_reason
        == Some(ZScoreUnavailable::NoEventValue))
    &&& (event_value is Some && n < 2) ==> (z.z_score is None && !z.low_baseline
        && z.unavailable_reason == Some(
        ZScoreUnavailable::InsufficientBaseline { have: n as usize, need: 2 },
    ))
    &&& (event_value is Some && n >= 2 && (std is None || std.unwrap().units() == 0)) ==> (
    z.z_score is None && !z.low_baseline && z.unavailable_reason == Some(
        ZScoreUnavailable::ZeroBaselineVariance,
    ))
    &&& (event_value is Some && n >= 2 && std is Some && std.unwrap().units() != 0) ==> ({
        let zz = z_of(event_value.unwrap(), mean, std.unwrap());
        &&& zz is Some ==> (z.z_score is Some && pair(z.z_score.unwrap()) == zz.unwrap()
            && z.low_baseline == (n < 20) && z.unavailable_reason is None)
        &&& zz is None ==> (z.z_score is None && !z.low_baseline && z.unavailable_reason == Some(
            ZScoreUnavailable::ArithmeticOverflow,
        ))
    })
}

/// `z = (event_value - baseline_mean) / baseline_std`, computed against a
/// population baseline distribution, the standard deviation's square root
/// taken by `sqrt`. A missing event value takes priority over an
/// insufficient or zero-variance baseline.
pub fn compute_z_score<F: Fn(Dec) -> Option<Dec>>(
    event_value: Option<Dec>,
    baseline_values: &Vec<Dec>,
    sqrt: &F,
) -> (r: ZScoreResult)
    requires
        forall|x: Dec| sqrt.requires((x,)),
    ensures
        names(r.baseline_mean, mean_of(baseline_values@)),
        std_from(r.baseline_std, variance_of(baseline_values@), *sqrt),
        z_result_of(r, event_value, baseline_values@.len(), r.baseline_mean, r.baseline_std),
        (event_value is Some && baseline_values@.len() >= 2 && variance_of(baseline_values@) is Some
            && pair_units(variance_of(baseline_values@).unwrap()) == 0) ==> (r.z_score is None
            && r.unavailable_reason == Some(ZScoreUnavailable::ZeroBaselineVariance)),
{
    let baseline_n = baseline_values.len();
    let baseline_mean = mean(baseline_values);
    let baseline_std = population_std(baseline_values, sqrt);
    z_score_from(event_value, baseline_n, baseline_mean, baseline_std)
}

/// The z-score of `event_value` against a baseline of `baseline_n` points
/// with the given mean and standard deviation.
pub fn z_score_from(
    event_value: Option<Dec>,
    baseline_n: usize,
    baseline_mean: Option<Dec>,
    baseline_std: Option<Dec>,
) -> (r: ZScoreResult)
    ensures
        z_result_of(r, event_value, baseline_n as nat, baseline_mean, baseline_std),
{
    let event_value = match event_value {
        Some(v) => v,
        None => {
            return ZScoreResult {
                baseline_n,
                baseline_mean,
                baseline_std,
                z_score: None,
                low_baseline: false,
                unavailable_reason: Some(ZScoreUnavailable::NoEventValue),
            };
        },
    };
    if baseline_n < MIN_BASELINE_OBSERVATIONS {
        return ZScoreResult {
            baseline_n,
            baseline_mean,
            baseline_std,
            z_score: None,
            low_baseline: false,
            unavailable_reason: Some(
                ZScoreUnavailable::InsufficientBaseline {
                    have: baseline_n,
                    need: MIN_BASELINE_OBSERVATIONS,
                },
            ),
        };
    }
    let std = match baseline_std {
        Some(s) => s,
        None => Dec::zero(),
    };
    if dec_eq(&std, &Dec::zero()) {
        return ZScoreResult {
            baseline_n,
            baseline_mean,
            baseline_std,
            z_score: None,
            low_baseline: false,
            unavailable_reason: Some(ZScoreUnavailable::ZeroBaselineVariance),
        };
    }
    let m = match baseline_mean {
        Some(m) => m,
        None => Dec::zero(),
    };
    let z = match dec_sub(&event_value, &m) {
        Some(d) => dec_div(&d, &std),
        None => None,
    };
    match z {
        Some(z) => ZScoreResult {
            baseline_n,
            baseline_mean,
            baseline_std,
            z_score: Some(z),
            low_baseline: baseline_n < ADEQUATE_BASELINE_OBSERVATIONS,
            unavailable_reason: None,
        },
        None => ZScoreResult {
            baseline_n,
            baseline_mean,
            baseline_std,
            z_score: None,
            low_baseline: false,
            unavailable_reason: Some(ZScoreUnavailable::ArithmeticOverflow),
        },
    }
}

} // verus!
