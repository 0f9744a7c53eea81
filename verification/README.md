# econ_cli

A small command-line tool that fetches, caches and prints UK macroeconomic
series (GDP, CPIH inflation, Bank Rate, wages, unemployment, inactivity) from
the ONS website, DBnomics and the Bank of England, built around a library
whose behaviour is specified and proved with Verus.

## Layout

- `src/` — the verified library.
  - `cli.rs` — the command line as plain values, and `run` / `run_compare`,
    which decide what a command line is carried out as (and refuse
    comparisons of a series with itself or with quarterly GDP).
  - `series.rs` — the six series, where each is fetched from, the normalised
    `Row`, the rows made from each source's response, and `--since`.
  - `ons.rs`, `dbnomics.rs`, `boe.rs` — the three sources' responses as plain
    values.
  - `align.rs` — joining two series on calendar months, through `BTreeMap`s
    keyed by (year, month).
  - `month_order.rs` — the order of (year, month) keys in a `BTreeMap`.
  - `render.rs` — tables, CSV documents, and the uniform display precision.
  - `dates.rs` — dates and month names read with chrono.
  - `csv_out.rs` — CSV records written with the csv crate.
  - `text.rs` — integers read and written as text, padding, case mapping.
  - `cache.rs` — cache file names and staleness.
  - `laws.rs` — properties that hold across functions.
- `app/` — the executable: argument parsing (clap), HTTP (reqwest), the cache
  directory, JSON and CSV parsing into the library's values (serde, csv),
  rendering floats to a fixed precision, and printing.
- `tests/` — tests of the library.
