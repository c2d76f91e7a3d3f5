# Shocktrace

Deterministic measurement of market responses and directional flows around
financial shocks, with the accounting proved correct by Verus.

- Keeps **market response**, **route evidence** and **directional flow**
  separate; never treats `A activity ↓ + B activity ↑` as proof that capital
  moved from A to B.
- Missing flow stays missing; it is never encoded as zero.
- Every reported number carries an evidence boundary.

## Layout

- `src/` — the verified library.
  - `project/` — the parsed `project.toml` (`RawProject`), its mapping to a
    `ProjectConfig` and its validation (`build_project`, `validate_project`).
  - `ingest/` — parsing of the daily flow, supply, response and reference CSV
    rows.
  - `flow.rs`, `response.rs` — per-window directional-flow and
    market-response accounting.
  - `report/` — the analysis (`analyze_project`), its sections, its text
    renderings and section views.
  - `measure/` — shock score, horizon returns, activity anomaly, divergence
    and reference-to-token response gaps.
  - `dec.rs`, `day.rs`, `provenance.rs` — decimals, calendar days and SHA-256
    hashes, computed by `rust_decimal`, `chrono` and `sha2`.
  - `fetch.rs` — the computing parts of the download-and-freeze helper.
- `app/` — the command-line program: reading files, the CLI, JSON output,
  the download helper and the `f64` square root used by the measure tools.
- `tests/` — tests of the library.

## Commands

```bash
shocktrace validate projects/spacex
shocktrace flows projects/spacex --format summary
shocktrace analyze projects/spacex --format json
shocktrace measure shock projects/paxg_wtic_reference_2026_07_08 --asset PAXG --format summary
shocktrace measure response-gap projects/paxg_wtic_reference_2026_07_08 --asset PAXG --reference GOLD_SPOT
shocktrace measure divergence projects/paxg_wtic_reference_2026_07_08 --asset-a PAXG --asset-b WTIC
shocktrace fetch-gold-oil --start 2024-05-01 --end 2025-10-15
```
