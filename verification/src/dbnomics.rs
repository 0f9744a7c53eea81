//! The DBnomics v22 series API response, as plain values.
//!
//! Observations live in parallel arrays `period` / `value`; `value` entries
//! are either a number or the text "NA" for missing observations.

use vstd::prelude::*;

verus! {

pub struct DbnomicsResponse {
    pub series: SeriesPage,
}

pub struct SeriesPage {
    pub docs: Vec<SeriesDoc>,
}

/// Only the fields the tool reads.
pub struct SeriesDoc {
    pub series_name: String,
    /// "2026-05" (monthly), "2026-Q1" (quarterly), "2026" (annual)
    pub period: Vec<String>,
    pub value: Vec<Value>,
}

/// A single observation value: a number, or a text ("NA") when missing.
pub enum Value {
    /// The number, in its shortest decimal rendering (what `{}` writes).
    Number(String),
    Text(String),
}

} // verus!
