//! Rows of the Bank of England IADB CSV export (Bank Rate etc.).
//!
//! CSV shape: header "DATE,{SERIES_CODE}", then one row per day, dates
//! formatted "02 Jan 2024".

use vstd::prelude::*;

use crate::dates::{boe_date, boe_date_format, parsed_calendar_date, written_date, CalendarDate};

verus! {

/// One row of the two-column CSV.
pub struct BoeRow {
    pub date: String,
    /// The value, in its shortest decimal rendering (what `{}` writes).
    pub value: String,
}

impl BoeRow {
    /// The row's date, if it reads as "02 Jan 2024" does.
    pub fn date(&self) -> (r: Option<CalendarDate>)
        ensures
            r == parsed_calendar_date(self.date@, boe_date_format()),
            r matches Some(d) ==> 1 <= d.month <= 12,
            written_date(self.date@) matches Some((y, m, d)) ==> r == Some(
                CalendarDate { year: y, month: m, day: d },
            ),
    {
        boe_date(self.date.as_str())
    }
}

} // verus!
