use rust_decimal::prelude::{FromPrimitive, ToPrimitive};
use rust_decimal::Decimal;
use shocktrace::dec::Dec;
use shocktrace::measure::stats::{
    compute_z_score, mean, median, population_std, population_variance, ZScoreUnavailable,
};

fn d(s: &str) -> Dec {
    Dec::parse(s).unwrap()
}

fn sqrt(x: Dec) -> Option<Dec> {
    let f = Decimal::from_i128_with_scale(x.mantissa(), x.scale()).to_f64()?;
    if !f.is_finite() {
        return None;
    }
    let r = Decimal::from_f64(f.sqrt())?;
    Dec::from_parts(r.mantissa(), r.scale())
}

#[test]
fn median_even_n_is_not_upper_median() {
    let values = vec![d("4"), d("1"), d("3"), d("2")];
    let m = median(&values).unwrap();
    assert_eq!(m, d("2.5"));
    assert_ne!(m, d("3"), "must not use the upper of the two middle values");
}

#[test]
fn median_odd_n() {
    let values = vec![d("5"), d("1"), d("3")];
    assert_eq!(median(&values).unwrap(), d("3"));
}

#[test]
fn median_empty_is_none() {
    assert_eq!(median(&vec![]), None);
}

#[test]
fn population_std_known_fixture() {
    let values = vec![d("0.01"), d("0.03"), d("0.01"), d("0.03")];
    let std = population_std(&values, &sqrt).unwrap();
    assert_eq!(std, d("0.01"));
}

#[test]
fn zero_variance_baseline_is_zero_variance_reason() {
    let values = vec![d("0.02"), d("0.02"), d("0.02")];
    let z = compute_z_score(Some(d("0.05")), &values, &sqrt);
    assert!(z.z_score.is_none());
    assert!(!z.low_baseline);
    assert_eq!(z.baseline_std, Some(Dec::zero()));
    assert_eq!(z.unavailable_reason, Some(ZScoreUnavailable::ZeroBaselineVariance));
}

#[test]
fn insufficient_baseline_reason() {
    let values = vec![d("0.01")];
    let z = compute_z_score(Some(d("0.05")), &values, &sqrt);
    assert!(z.z_score.is_none());
    assert!(!z.low_baseline);
    assert_eq!(
        z.unavailable_reason,
        Some(ZScoreUnavailable::InsufficientBaseline { have: 1, need: 2 })
    );
}

#[test]
fn thin_but_computable_baseline_is_low_baseline() {
    let values = vec![d("0.01"), d("0.03")];
    let z = compute_z_score(Some(d("0.05")), &values, &sqrt);
    assert!(z.z_score.is_some());
    assert!(z.low_baseline);
    assert_eq!(z.baseline_n, 2);
    assert!(z.unavailable_reason.is_none());
}

#[test]
fn missing_event_value_takes_priority_over_baseline_defects() {
    let z = compute_z_score(None, &vec![d("0.01")], &sqrt);
    assert_eq!(z.unavailable_reason, Some(ZScoreUnavailable::NoEventValue));
    assert!(!z.low_baseline);
}

#[test]
fn stats_known_z_score_fixture() {
    let baseline = vec![d("0.01"), d("0.03"), d("0.01"), d("0.03")];
    let z = compute_z_score(Some(d("0.05")), &baseline, &sqrt);
    assert_eq!(z.baseline_mean, Some(d("0.02")));
    assert_eq!(z.baseline_std, Some(d("0.01")));
    assert_eq!(z.z_score, Some(d("3")));
    assert!(z.low_baseline);
}

#[test]
fn mean_and_variance_of_known_values() {
    let values = vec![d("1"), d("2"), d("3"), d("4")];
    assert_eq!(mean(&values), Some(d("2.5")));
    assert_eq!(population_variance(&values), Some(d("1.25")));
    assert_eq!(mean(&vec![]), None);
}

#[test]
fn median_of_one_value_is_that_value() {
    assert_eq!(median(&vec![d("-7.5")]), Some(d("-7.5")));
}
