//! Terminal-friendly text summaries of the measure tools. Display-only
//! decimals are rounded to six decimal places.
use crate::coverage::EvidenceBoundary;
use crate::day::{date_text, Day};
use crate::dec::{dec_round_dp, decimal_round_dp, decimal_text, Dec};
use crate::measure::divergence::DivergenceSummary;
use crate::measure::response_gap::ResponseGapSummary;
use crate::measure::shock::AssetShockReport;
use crate::measure::horizon::HorizonReturn;
use crate::measure::stats::ZScoreUnavailable;
use crate::report::render::{boundary_lines, format_boundary_block, joined};
use crate::text::{count_text, decimal_digits};
use vstd::prelude::*;
use vstd::string::*;

verus! {

/// A decimal rounded to six places, as text.
pub open spec fn rounded_text(d: Dec) -> Seq<char> {
    let p = decimal_round_dp(d.mant(), d.scl(), 6);
    decimal_text(p.0, p.1)
}

/// A rounded decimal, or `null` when absent.
pub open spec fn opt_rounded(v: Option<Dec>) -> Seq<char> {
    match v {
        Some(d) => rounded_text(d),
        None => "null"@,
    }
}

pub fn fmt_opt(value: Option<Dec>) -> (r: String)
    ensures
        r@ == opt_rounded(value),
{
    match value {
        Some(v) => dec_round_dp(&v, 6).to_text(),
        None => String::from_str("null"),
    }
}

fn fmt_dec(value: &Dec) -> (r: String)
    ensures
        r@ == rounded_text(*value),
{
    dec_round_dp(value, 6).to_text()
}

/// Why a z-score is missing, as a suffix; empty when it is not.
pub open spec fn reason_text(reason: Option<ZScoreUnavailable>) -> Seq<char> {
    match reason {
        None => Seq::empty(),
        Some(ZScoreUnavailable::NoEventValue) => " (no event value)"@,
        Some(ZScoreUnavailable::InsufficientBaseline { have, need }) => " (insufficient baseline: "@
            + decimal_digits(have as nat) + " of "@ + decimal_digits(need as nat) + " minimum)"@,
        Some(ZScoreUnavailable::ZeroBaselineVariance) => " (zero baseline variance)"@,
        Some(ZScoreUnavailable::ArithmeticOverflow) => " (arithmetic overflow)"@,
    }
}

pub fn fmt_reason(reason: &Option<ZScoreUnavailable>) -> (r: String)
    ensures
        r@ == reason_text(*reason),
{
    match reason {
        None => String::new(),
        Some(ZScoreUnavailable::NoEventValue) => String::from_str(" (no event value)"),
        Some(ZScoreUnavailable::InsufficientBaseline { have, need }) => String::from_str(
            " (insufficient baseline: ",
        ).concat(count_text(*have).as_str()).concat(" of ").concat(count_text(*need).as_str()).concat(
            " minimum)",
        ),
        Some(ZScoreUnavailable::ZeroBaselineVariance) => String::from_str(" (zero baseline variance)"),
        Some(ZScoreUnavailable::ArithmeticOverflow) => String::from_str(" (arithmetic overflow)"),
    }
}

/// A day as text, or `none`.
pub open spec fn day_or_none(d: Option<Day>) -> Seq<char> {
    match d {
        Some(x) => date_text(x.num()),
        None => "none"@,
    }
}

fn day_or_none_text(d: Option<Day>) -> (r: String)
    ensures
        r@ == day_or_none(d),
{
    match d {
        Some(x) => x.to_text(),
        None => String::from_str("none"),
    }
}

/// The low-baseline suffix.
pub open spec fn low_text(low: bool) -> Seq<char> {
    if low {
        " (low baseline — below adequacy floor)"@
    } else {
        Seq::empty()
    }
}

fn low_baseline_text(low: bool) -> (r: &'static str)
    ensures
        r@ == low_text(low),
{
    proof {
        reveal_strlit("");
    }
    if low {
        " (low baseline — below adequacy floor)"
    } else {
        ""
    }
}

/// `text` padded with spaces on the right to at least three characters.
pub open spec fn pad3(text: Seq<char>) -> Seq<char> {
    if text.len() >= 3 {
        text
    } else if text.len() == 2 {
        text + " "@
    } else if text.len() == 1 {
        text + "  "@
    } else {
        "   "@
    }
}

fn pad3_text(text: String) -> (r: String)
    ensures
        r@ == pad3(text@),
{
    let n = text.as_str().unicode_len();
    if n >= 3 {
        text
    } else if n == 2 {
        text.concat(" ")
    } else if n == 1 {
        text.concat("  ")
    } else {
        String::from_str("   ")
    }
}

/// `Some(day)` or `None`, as `Debug` of an optional date prints it.
pub open spec fn anchor_text(d: Option<Day>) -> Seq<char> {
    match d {
        Some(x) => "Some("@ + date_text(x.num()) + ")"@,
        None => "None"@,
    }
}

/// One line per horizon return.
pub open spec fn horizon_lines(hs: Seq<HorizonReturn>) -> Seq<char>
    decreases hs.len(),
{
    if hs.len() == 0 {
        Seq::empty()
    } else {
        let h = hs.last();
        horizon_lines(hs.drop_last()) + "  +"@ + pad3(decimal_digits(h.horizon_sessions as nat))
            + " sessions: "@ + opt_rounded(h.cumulative_return) + " (day="@ + day_or_none(h.day)
            + ")\n"@
    }
}

/// The shock report as text.
pub open spec fn shock_report_text(asset: Seq<char>, report: AssetShockReport) -> Seq<char> {
    let shock = report.shock;
    "shock score: "@ + asset + "\n"@ + "  event window   : "@ + shock.event_window_name@ + " (day="@
        + day_or_none(shock.event_day) + ")\n"@ + "  baseline window: "@
        + shock.baseline_window_name@ + "\n"@ + "  event_return   : "@ + opt_rounded(
        shock.event_return,
    ) + "\n"@ + "  baseline mean/std/n: "@ + opt_rounded(shock.baseline_mean) + " / "@
        + opt_rounded(shock.baseline_std) + " / "@ + decimal_digits(shock.baseline_n as nat)
        + "\n"@ + "  z_score        : "@ + opt_rounded(shock.z_score) + reason_text(
        shock.unavailable_reason,
    ) + low_text(shock.low_baseline) + "\n"@ + "horizon returns (anchor="@ + anchor_text(
        report.horizons.anchor_day,
    ) + "):\n"@ + horizon_lines(report.horizons.horizons@) + "activity anomaly:\n"@
        + "  window/baseline median volume: "@ + opt_rounded(report.activity.window_median_volume)
        + " / "@ + opt_rounded(report.activity.baseline_median_volume) + "\n"@ + "  ratio: "@
        + opt_rounded(report.activity.ratio) + "\n"@ + "boundary: "@
        + shock.interpretation_boundary@ + "\n"@ + joined(boundary_lines(report.boundary)) + "\n"@
}

pub fn format_shock_report_summary(asset: &str, report: &AssetShockReport) -> (r: String)
    ensures
        r@ == shock_report_text(asset@, *report),
{
    let shock = &report.shock;
    let mut out = String::from_str("shock score: ").concat(asset).concat("\n");
    out = out.concat("  event window   : ").concat(shock.event_window_name.as_str()).concat(
        " (day=",
    ).concat(day_or_none_text(shock.event_day).as_str()).concat(")\n");
    out = out.concat("  baseline window: ").concat(shock.baseline_window_name.as_str()).concat("\n");
    out = out.concat("  event_return   : ").concat(fmt_opt(shock.event_return).as_str()).concat("\n");
    out = out.concat("  baseline mean/std/n: ").concat(fmt_opt(shock.baseline_mean).as_str()).concat(
        " / ",
    ).concat(fmt_opt(shock.baseline_std).as_str()).concat(" / ").concat(
        count_text(shock.baseline_n).as_str(),
    ).concat("\n");
    out = out.concat("  z_score        : ").concat(fmt_opt(shock.z_score).as_str()).concat(
        fmt_reason(&shock.unavailable_reason).as_str(),
    ).concat(low_baseline_text(shock.low_baseline)).concat("\n");
    let anchor = match report.horizons.anchor_day {
        Some(d) => String::from_str("Some(").concat(d.to_text().as_str()).concat(")"),
        None => String::from_str("None"),
    };
    out = out.concat("horizon returns (anchor=").concat(anchor.as_str()).concat("):\n");
    let hs = &report.horizons.horizons;
    let ghost head = out@;
    let mut i: usize = 0;
    while i < hs.len()
        invariant
            i <= hs@.len(),
            out@ == head + horizon_lines(hs@.take(i as int)),
        decreases hs.len() - i,
    {
        let h = &hs[i];
        proof {
            assert(hs@.take(i + 1).drop_last() =~= hs@.take(i as int));
        }
        out = out.concat("  +").concat(pad3_text(count_text(h.horizon_sessions)).as_str()).concat(
            " sessions: ",
        ).concat(fmt_opt(h.cumulative_return).as_str()).concat(" (day=").concat(
            day_or_none_text(h.day).as_str(),
        ).concat(")\n");
        i += 1;
    }
    proof {
        assert(hs@.take(hs@.len() as int) =~= hs@);
    }
    out = out.concat("activity anomaly:\n");
    out = out.concat("  window/baseline median volume: ").concat(
        fmt_opt(report.activity.window_median_volume).as_str(),
    ).concat(" / ").concat(fmt_opt(report.activity.baseline_median_volume).as_str()).concat("\n");
    out = out.concat("  ratio: ").concat(fmt_opt(report.activity.ratio).as_str()).concat("\n");
    out = out.concat("boundary: ").concat(shock.interpretation_boundary).concat("\n");
    out = out.concat(format_boundary_block(&report.boundary).as_str()).concat("\n");
    out
}

/// The divergence summary as text.
pub open spec fn divergence_text(s: DivergenceSummary) -> Seq<char> {
    "divergence: "@ + s.asset_a.0@ + " vs "@ + s.asset_b.0@ + "\n"@ + "  event window   : "@
        + s.event_window_name@ + " (day="@ + day_or_none(s.event_day) + ")\n"@
        + "  baseline window: "@ + s.baseline_window_name@ + "\n"@ + "  matched_days   : "@
        + decimal_digits(s.matched_days as nat) + "\n"@ + "  event_divergence: "@ + opt_rounded(
        s.event_divergence,
    ) + "\n"@ + "  baseline mean/std/n: "@ + opt_rounded(s.baseline_mean) + " / "@ + opt_rounded(
        s.baseline_std,
    ) + " / "@ + decimal_digits(s.baseline_n as nat) + "\n"@ + "  z_score        : "@
        + opt_rounded(s.z_score) + reason_text(s.unavailable_reason) + low_text(s.low_baseline)
        + "\n"@ + "boundary: "@ + s.interpretation_boundary@ + "\n"@ + joined(
        boundary_lines(s.boundary),
    ) + "\n"@
}

pub fn format_divergence_summary(summary: &DivergenceSummary) -> (r: String)
    ensures
        r@ == divergence_text(*summary),
{
    let mut out = String::from_str("divergence: ").concat(summary.asset_a.as_str()).concat(
        " vs ",
    ).concat(summary.asset_b.as_str()).concat("\n");
    out = out.concat("  event window   : ").concat(summary.event_window_name.as_str()).concat(
        " (day=",
    ).concat(day_or_none_text(summary.event_day).as_str()).concat(")\n");
    out = out.concat("  baseline window: ").concat(summary.baseline_window_name.as_str()).concat(
        "\n",
    );
    out = out.concat("  matched_days   : ").concat(count_text(summary.matched_days).as_str()).concat(
        "\n",
    );
    out = out.concat("  event_divergence: ").concat(fmt_opt(summary.event_divergence).as_str()).concat(
        "\n",
    );
    out = out.concat("  baseline mean/std/n: ").concat(fmt_opt(summary.baseline_mean).as_str()).concat(
        " / ",
    ).concat(fmt_opt(summary.baseline_std).as_str()).concat(" / ").concat(
        count_text(summary.baseline_n).as_str(),
    ).concat("\n");
    out = out.concat("  z_score        : ").concat(fmt_opt(summary.z_score).as_str()).concat(
        fmt_reason(&summary.unavailable_reason).as_str(),
    ).concat(low_baseline_text(summary.low_baseline)).concat("\n");
    out = out.concat("boundary: ").concat(summary.interpretation_boundary).concat("\n");
    out = out.concat(format_boundary_block(&summary.boundary).as_str()).concat("\n");
    out
}

/// Whether the returns point the same way, as text.
pub open spec fn direction_text(d: Option<bool>) -> Seq<char> {
    match d {
        Some(true) => "same"@,
        Some(false) => "opposite"@,
        None => "unavailable"@,
    }
}

/// The pass-through (response gap) summary as text.
pub open spec fn passthrough_text(s: ResponseGapSummary) -> Seq<char> {
    "pass-through: "@ + s.asset_key.0@ + " vs "@ + s.reference_key@ + "\n"@
        + "  event day       : "@ + date_text(s.event_day.num()) + "\n"@
        + "  reference return: "@ + rounded_text(s.reference_return) + "\n"@
        + "  token return    : "@ + opt_rounded(s.token_return) + "\n"@
        + "  response gap    : "@ + opt_rounded(s.response_gap) + " (token - reference)\n"@
        + "  direction       : "@ + direction_text(s.direction_match) + "\n"@
        + "  reference cutoff: "@ + s.reference_cutoff@ + "\n"@ + "boundary: "@
        + s.interpretation_boundary@ + "\n"@ + joined(boundary_lines(s.boundary)) + "\n"@
}

pub fn format_passthrough_summary(summary: &ResponseGapSummary) -> (r: String)
    ensures
        r@ == passthrough_text(*summary),
{
    let mut out = String::from_str("pass-through: ").concat(summary.asset_key.as_str()).concat(
        " vs ",
    ).concat(summary.reference_key.as_str()).concat("\n");
    out = out.concat("  event day       : ").concat(summary.event_day.to_text().as_str()).concat("\n");
    out = out.concat("  reference return: ").concat(fmt_dec(&summary.reference_return).as_str()).concat(
        "\n",
    );
    out = out.concat("  token return    : ").concat(fmt_opt(summary.token_return).as_str()).concat(
        "\n",
    );
    out = out.concat("  response gap    : ").concat(fmt_opt(summary.response_gap).as_str()).concat(
        " (token - reference)\n",
    );
    let direction = match summary.direction_match {
        Some(true) => "same",
        Some(false) => "opposite",
        None => "unavailable",
    };
    out = out.concat("  direction       : ").concat(direction).concat("\n");
    out = out.concat("  reference cutoff: ").concat(summary.reference_cutoff.as_str()).concat("\n");
    out = out.concat("boundary: ").concat(summary.interpretation_boundary).concat("\n");
    out = out.concat(format_boundary_block(&summary.boundary).as_str()).concat("\n");
    out
}

} // verus!
