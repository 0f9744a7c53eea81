//! The ONS website's timeseries JSON, as plain values.
//!
//! Every field of the response is a string, numeric values included.
//! Exactly one of `years` / `quarters` / `months` is populated per series
//! frequency; the others are present but empty.

use vstd::prelude::*;
use vstd::string::StringSliceAdditionalSpecFns;

use crate::text::{parse_i32_bytes, parsed_i32};

verus! {

pub struct SeriesResponse {
    pub description: Description,
    pub years: Vec<Observation>,
    pub quarters: Vec<Observation>,
    pub months: Vec<Observation>,
}

pub struct Description {
    pub title: String,
    pub cdid: String,
    pub dataset_id: String,
    /// e.g. "%" for CPIH annual rate; empty for GDP £m (see `pre_unit`)
    pub unit: String,
    pub pre_unit: String,
    pub release_date: String,
    pub next_release: String,
}

pub struct Observation {
    /// "1948" (annual), "2026 Q1" (quarterly), "2026 MAY" (monthly)
    pub date: String,
    /// numeric value as a string, e.g. "709598" or "3.0"
    pub value: String,
    pub year: String,
    /// "May" for monthly series, "" otherwise
    pub month: String,
    /// "Q1" for quarterly series, "" otherwise
    pub quarter: String,
}

/// The observation list of the series' native frequency: months if any,
/// else quarters if any, else years.
pub open spec fn populated_observations(s: SeriesResponse) -> Seq<Observation> {
    if s.months@.len() > 0 {
        s.months@
    } else if s.quarters@.len() > 0 {
        s.quarters@
    } else {
        s.years@
    }
}

/// The year of an observation: its `year` field read as `i32::from_str` reads it.
pub open spec fn observation_year(o: Observation) -> Option<i32> {
    parsed_i32(vstd::utf8::encode_utf8(o.year@))
}

impl SeriesResponse {
    /// The populated observation list for this series' native frequency.
    pub fn observations(&self) -> (r: &[Observation])
        ensures
            r@ == populated_observations(*self),
    {
        if self.months.len() > 0 {
            self.months.as_slice()
        } else if self.quarters.len() > 0 {
            self.quarters.as_slice()
        } else {
            self.years.as_slice()
        }
    }
}

impl Observation {
    /// The `year` field as a number, if it is one.
    pub fn year(&self) -> (r: Option<i32>)
        ensures
            r == observation_year(*self),
    {
        let bytes = self.year.as_str().as_bytes();
        assert(bytes@.subrange(0, bytes@.len() as int) =~= bytes@);
        parse_i32_bytes(bytes, 0, bytes.len())
    }
}

} // verus!
