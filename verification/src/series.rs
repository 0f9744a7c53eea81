//! The six series, where each comes from, and their observations normalised
//! across the three sources.

use vstd::prelude::*;
use vstd::string::StringSliceAdditionalSpecFns;

use crate::boe::BoeRow;
use crate::dates::{
    boe_date_format, month_number, month_of_name, names_month, parsed_calendar_date, written_date,
    CalendarDate,
};
use crate::dbnomics::{DbnomicsResponse, Value};
use crate::ons::{observation_year, populated_observations, Description, Observation, SeriesResponse};
use crate::text::{parse_i32_bytes, parse_u32_bytes, parsed_i32, parsed_u32};

verus! {

/// One observation, normalised across the three sources.
pub struct Row {
    /// The period as the source writes it ("2026 MAY", "2026-05", "02 Jan 2024").
    pub period: String,
    pub year: Option<i32>,
    /// 1-12 when the observation can be aligned to a calendar month.
    pub month: Option<u32>,
    /// The value as displayed.
    pub value: String,
    /// For numeric sources (DBnomics, the Bank of England), the number in its
    /// shortest decimal rendering, so that displayed rows can be re-rendered
    /// to a uniform precision after filtering. `None` for the ONS, whose
    /// values arrive as already formatted text.
    pub num: Option<String>,
}

/// A copy of `r`.
pub fn copy_row(r: &Row) -> (c: Row)
    ensures
        c == *r,
{
    Row {
        period: r.period.clone(),
        year: r.year,
        month: r.month,
        value: r.value.clone(),
        num: match &r.num {
            Some(n) => Some(n.clone()),
            None => None,
        },
    }
}

/// The series the tool knows.
#[derive(Clone, Copy, PartialEq, Eq, Structural, Debug)]
pub enum SeriesKind {
    Gdp,
    Inflation,
    Rate,
    Wages,
    Unemployment,
    Inactivity,
}

/// The command-line name of a series.
pub open spec fn kind_name(k: SeriesKind) -> Seq<char> {
    match k {
        SeriesKind::Gdp => seq!['g', 'd', 'p'],
        SeriesKind::Inflation => seq!['i', 'n', 'f', 'l', 'a', 't', 'i', 'o', 'n'],
        SeriesKind::Rate => seq!['r', 'a', 't', 'e'],
        SeriesKind::Wages => seq!['w', 'a', 'g', 'e', 's'],
        SeriesKind::Unemployment => seq![
            'u', 'n', 'e', 'm', 'p', 'l', 'o', 'y', 'm', 'e', 'n', 't',
        ],
        SeriesKind::Inactivity => seq!['i', 'n', 'a', 'c', 't', 'i', 'v', 'i', 't', 'y'],
    }
}

impl SeriesKind {
    /// The command-line name of the series.
    pub fn name(self) -> (r: &'static str)
        ensures
            r@ == kind_name(self),
    {
        match self {
            SeriesKind::Gdp => {
                proof { reveal_strlit("gdp"); }
                "gdp"
            },
            SeriesKind::Inflation => {
                proof { reveal_strlit("inflation"); }
                "inflation"
            },
            SeriesKind::Rate => {
                proof { reveal_strlit("rate"); }
                "rate"
            },
            SeriesKind::Wages => {
                proof { reveal_strlit("wages"); }
                "wages"
            },
            SeriesKind::Unemployment => {
                proof { reveal_strlit("unemployment"); }
                "unemployment"
            },
            SeriesKind::Inactivity => {
                proof { reveal_strlit("inactivity"); }
                "inactivity"
            },
        }
    }
}

/// The code under which each series' publisher lists it: the ONS CDID, or
/// the Bank of England series code for Bank Rate.
pub open spec fn series_code(kind: SeriesKind) -> Seq<char> {
    match kind {
        SeriesKind::Gdp => seq!['A', 'B', 'M', 'I'],
        SeriesKind::Inflation => seq!['L', '5', '5', 'O'],
        SeriesKind::Rate => seq!['I', 'U', 'D', 'B', 'E', 'D', 'R'],
        SeriesKind::Wages => seq!['K', 'A', 'B', '9'],
        SeriesKind::Unemployment => seq!['M', 'G', 'S', 'X'],
        SeriesKind::Inactivity => seq!['L', 'F', '2', 'S'],
    }
}

/// GDP (ABMI) on the ONS website.
pub const GDP_URL: &'static str =
    "https://www.ons.gov.uk/economy/grossdomesticproductgdp/timeseries/abmi/ukea/data";

/// CPIH annual rate (L55O) on the ONS website.
pub const CPIH_URL: &'static str =
    "https://www.ons.gov.uk/economy/inflationandpriceindices/timeseries/l55o/mm23/data";

/// Average weekly earnings, total pay (KAB9) on DBnomics.
pub const WAGES_URL: &'static str = "https://api.db.nomics.world/v22/series/ONS/LMS/KAB9.M?observations=1";

/// Unemployment rate, aged 16 and over (MGSX) on DBnomics.
pub const UNEMPLOYMENT_URL: &'static str =
    "https://api.db.nomics.world/v22/series/ONS/LMS/MGSX.M?observations=1";

/// Economic inactivity rate, aged 16-64 (LF2S) on DBnomics.
pub const INACTIVITY_URL: &'static str =
    "https://api.db.nomics.world/v22/series/ONS/LMS/LF2S.M?observations=1";

/// Bank Rate (IUDBEDR) as a CSV export of the Bank of England IADB.
pub const RATE_URL: &'static str = "https://www.bankofengland.co.uk/boeapps/iadb/fromshowcolumns.asp?csv.x=yes&Datefrom=01/Jan/1975&Dateto=now&SeriesCodes=IUDBEDR&CSVF=TN&UsingCodes=Y&VPD=Y&VFD=N";

/// The kind of response a source sends.
#[derive(Clone, Copy, PartialEq, Eq, Structural, Debug)]
pub enum Source {
    /// ONS website timeseries JSON.
    Ons,
    /// DBnomics v22 series JSON.
    Dbnomics,
    /// Bank of England IADB CSV.
    BankOfEngland,
}

/// Where a series is fetched from and under which key its response is cached.
pub struct SeriesRequest {
    pub source: Source,
    /// The cache key (the series' CDID, lowercase).
    pub cache_key: &'static str,
    /// The cache file extension.
    pub ext: &'static str,
    pub url: &'static str,
}

/// The source, cache key, file extension and address of each series.
pub open spec fn request_parts(kind: SeriesKind) -> (Source, Seq<char>, Seq<char>, &'static str) {
    let json = seq!['j', 's', 'o', 'n'];
    match kind {
        SeriesKind::Gdp => (Source::Ons, seq!['a', 'b', 'm', 'i'], json, GDP_URL),
        SeriesKind::Inflation => (Source::Ons, seq!['l', '5', '5', 'o'], json, CPIH_URL),
        SeriesKind::Wages => (Source::Dbnomics, seq!['k', 'a', 'b', '9'], json, WAGES_URL),
        SeriesKind::Unemployment => (
            Source::Dbnomics,
            seq!['m', 'g', 's', 'x'],
            json,
            UNEMPLOYMENT_URL,
        ),
        SeriesKind::Inactivity => (Source::Dbnomics, seq!['l', 'f', '2', 's'], json, INACTIVITY_URL),
        SeriesKind::Rate => (
            Source::BankOfEngland,
            seq!['i', 'u', 'd', 'b', 'e', 'd', 'r'],
            seq!['c', 's', 'v'],
            RATE_URL,
        ),
    }
}

/// Which source serves `kind`, where, and under which cache key.
pub fn series_request(kind: SeriesKind) -> (r: SeriesRequest)
    ensures
        (r.source, r.cache_key@, r.ext@, r.url) == request_parts(kind),
{
    proof {
        reveal_strlit("json");
        reveal_strlit("csv");
        reveal_strlit("abmi");
        reveal_strlit("l55o");
        reveal_strlit("kab9");
        reveal_strlit("mgsx");
        reveal_strlit("lf2s");
        reveal_strlit("iudbedr");
    }
    let r = match kind {
        SeriesKind::Gdp => SeriesRequest { source: Source::Ons, cache_key: "abmi", ext: "json", url: GDP_URL },
        SeriesKind::Inflation => SeriesRequest {
            source: Source::Ons,
            cache_key: "l55o",
            ext: "json",
            url: CPIH_URL,
        },
        SeriesKind::Wages => SeriesRequest {
            source: Source::Dbnomics,
            cache_key: "kab9",
            ext: "json",
            url: WAGES_URL,
        },
        SeriesKind::Unemployment => SeriesRequest {
            source: Source::Dbnomics,
            cache_key: "mgsx",
            ext: "json",
            url: UNEMPLOYMENT_URL,
        },
        SeriesKind::Inactivity => SeriesRequest {
            source: Source::Dbnomics,
            cache_key: "lf2s",
            ext: "json",
            url: INACTIVITY_URL,
        },
        SeriesKind::Rate => SeriesRequest {
            source: Source::BankOfEngland,
            cache_key: "iudbedr",
            ext: "csv",
            url: RATE_URL,
        },
    };
    assert((r.source, r.cache_key@, r.ext@, r.url) =~= request_parts(kind));
    r
}

/// The title of an ONS series: the description's title, followed by the
/// unit (`pre_unit` then `unit`) in brackets when there is one.
pub open spec fn ons_title(d: Description) -> Seq<char> {
    let unit = d.pre_unit@ + d.unit@;
    if unit.len() == 0 {
        d.title@
    } else {
        d.title@ + seq![' ', '('] + unit + seq![')']
    }
}

/// `r` is the row made of the ONS observation `o`.
pub open spec fn is_ons_row(r: Row, o: Observation) -> bool {
    &&& r.period == o.date
    &&& r.year == observation_year(o)
    &&& r.month == month_of_name(o.month@)
    &&& r.value == o.value
    &&& r.num is None
}

/// The row made of the ONS observation `o` whose month name reads as `month`.
pub fn ons_row(o: &Observation, month: Option<u32>) -> (r: Row)
    ensures
        r.period == o.date,
        r.year == observation_year(*o),
        r.month == month,
        r.value == o.value,
        r.num is None,
{
    Row { period: o.date.clone(), year: o.year(), month, value: o.value.clone(), num: None }
}

/// The title and rows of an ONS series: one row per observation of the
/// series' native frequency, in order.
pub fn series_from_ons(series: &SeriesResponse) -> (r: (String, Vec<Row>))
    ensures
        r.0@ == ons_title(series.description),
        r.1@.len() == populated_observations(*series).len(),
        forall|i: int|
            0 <= i < r.1@.len() ==> is_ons_row(#[trigger] r.1@[i], populated_observations(*series)[i]),
        forall|i: int, k: int|
            0 <= i < r.1@.len() && #[trigger] names_month(populated_observations(*series)[i].month@, k)
                ==> r.1@[i].month == Some(k as u32),
{
    let desc = &series.description;
    let mut unit = desc.pre_unit.clone();
    unit.append(desc.unit.as_str());
    let mut title = desc.title.clone();
    if unit.as_str().unicode_len() > 0 {
        proof {
            reveal_strlit(" (");
            reveal_strlit(")");
        }
        title.append(" (");
        title.append(unit.as_str());
        title.append(")");
        assert(title@ =~= ons_title(*desc));
    }
    let observations = series.observations();
    let mut rows: Vec<Row> = Vec::new();
    let mut i: usize = 0;
    while i < observations.len()
        invariant
            i <= observations@.len(),
            observations@ == populated_observations(*series),
            rows@.len() == i,
            forall|k: int| 0 <= k < i ==> is_ons_row(#[trigger] rows@[k], observations@[k]),
            forall|k: int, m: int|
                0 <= k < i && #[trigger] names_month(observations@[k].month@, m) ==> rows@[k].month
                    == Some(m as u32),
        decreases observations@.len() - i,
    {
        let o = &observations[i];
        rows.push(ons_row(o, month_number(o.month.as_str())));
        i = i + 1;
    }
    (title, rows)
}

/// The year of a DBnomics period: its first four bytes, read as
/// `i32::from_str` reads them, where they end on a character boundary.
pub open spec fn dbnomics_year(period: Seq<char>) -> Option<i32> {
    let bytes = vstd::utf8::encode_utf8(period);
    if vstd::utf8::is_char_boundary(bytes, 4) {
        parsed_i32(bytes.subrange(0, 4))
    } else {
        None
    }
}

/// The month of a DBnomics period: its bytes 5 and 6, read as
/// `u32::from_str` reads them, where they lie between character boundaries.
pub open spec fn dbnomics_month(period: Seq<char>) -> Option<u32> {
    let bytes = vstd::utf8::encode_utf8(period);
    if vstd::utf8::is_char_boundary(bytes, 5) && vstd::utf8::is_char_boundary(bytes, 7) {
        parsed_u32(bytes.subrange(5, 7))
    } else {
        None
    }
}

/// The numeric observations among the first `n` (period, value) pairs, in
/// order, as (period, rendering of the number).
pub open spec fn numeric_prefix(periods: Seq<String>, values: Seq<Value>, n: nat) -> Seq<
    (String, String),
>
    decreases n,
{
    if n == 0 {
        seq![]
    } else {
        let prev = numeric_prefix(periods, values, (n - 1) as nat);
        match values[n - 1] {
            Value::Number(x) => prev.push((periods[n - 1], x)),
            Value::Text(_) => prev,
        }
    }
}

/// The numeric observations of parallel `period` / `value` arrays, paired
/// up to the shorter of the two, in order.
pub open spec fn numeric_observations(periods: Seq<String>, values: Seq<Value>) -> Seq<
    (String, String),
> {
    let n = if periods.len() <= values.len() {
        periods.len()
    } else {
        values.len()
    };
    numeric_prefix(periods, values, n)
}

/// `r` is the row made of the numeric observation `number` at `period`.
pub open spec fn is_numeric_row(r: Row, period: String, number: String) -> bool {
    &&& r.period == period
    &&& r.year == dbnomics_year(period@)
    &&& r.month == dbnomics_month(period@)
    &&& r.value == number
    &&& r.num == Some(number)
}

/// The year of a DBnomics period, as `period.get(..4)` then `i32::from_str`.
fn period_year(period: &str) -> (r: Option<i32>)
    ensures
        r == dbnomics_year(period@),
{
    if period.is_char_boundary(4) {
        let bytes = period.as_bytes();
        proof {
            vstd::utf8::encode_utf8_valid_utf8(period@);
        }
        if bytes.len() < 4 {
            return None;
        }
        parse_i32_bytes(bytes, 0, 4)
    } else {
        None
    }
}

/// The month of a DBnomics period, as `period.get(5..7)` then `u32::from_str`.
fn period_month(period: &str) -> (r: Option<u32>)
    ensures
        r == dbnomics_month(period@),
{
    if period.is_char_boundary(5) && period.is_char_boundary(7) {
        let bytes = period.as_bytes();
        proof {
            vstd::utf8::encode_utf8_valid_utf8(period@);
        }
        if bytes.len() < 7 {
            return None;
        }
        parse_u32_bytes(bytes, 5, 7)
    } else {
        None
    }
}

/// Why a response holds no series.
#[derive(Clone, Copy, PartialEq, Eq, Structural, Debug)]
pub enum SeriesError {
    /// DBnomics answered with an empty list of series.
    NoSeries,
}

/// The title and rows of a DBnomics response: its first series, one row per
/// numeric observation in order ("NA" observations skipped), or `NoSeries`
/// when the response lists no series.
pub fn series_from_dbnomics(resp: &DbnomicsResponse) -> (r: Result<(String, Vec<Row>), SeriesError>)
    ensures
        resp.series.docs@.len() == 0 <==> r is Err,
        r matches Ok((title, rows)) ==> {
            let doc = resp.series.docs@[0];
            let kept = numeric_observations(doc.period@, doc.value@);
            &&& title == doc.series_name
            &&& rows@.len() == kept.len()
            &&& forall|i: int|
                0 <= i < rows@.len() ==> is_numeric_row(#[trigger] rows@[i], kept[i].0, kept[i].1)
        },
{
    if resp.series.docs.len() == 0 {
        return Err(SeriesError::NoSeries);
    }
    let doc = &resp.series.docs[0];
    let n = if doc.period.len() <= doc.value.len() {
        doc.period.len()
    } else {
        doc.value.len()
    };
    let mut rows: Vec<Row> = Vec::new();
    let mut i: usize = 0;
    while i < n
        invariant
            i <= n,
            n <= doc.period@.len(),
            n <= doc.value@.len(),
            n == if doc.period@.len() <= doc.value@.len() {
                doc.period@.len()
            } else {
                doc.value@.len()
            },
            rows@.len() == numeric_prefix(doc.period@, doc.value@, i as nat).len(),
            forall|k: int|
                0 <= k < rows@.len() ==> {
                    let kept = numeric_prefix(doc.period@, doc.value@, i as nat);
                    is_numeric_row(#[trigger] rows@[k], kept[k].0, kept[k].1)
                },
        decreases n - i,
    {
        let ghost prev = numeric_prefix(doc.period@, doc.value@, i as nat);
        match &doc.value[i] {
            Value::Number(x) => {
                let period = &doc.period[i];
                let row = Row {
                    period: period.clone(),
                    year: period_year(period.as_str()),
                    month: period_month(period.as_str()),
                    value: x.clone(),
                    num: Some(x.clone()),
                };
                rows.push(row);
            },
            Value::Text(_) => {},
        }
        i = i + 1;
        proof {
            let kept = numeric_prefix(doc.period@, doc.value@, i as nat);
            assert forall|k: int| 0 <= k < rows@.len() implies is_numeric_row(
                #[trigger] rows@[k],
                kept[k].0,
                kept[k].1,
            ) by {
                if k < prev.len() {
                    assert(kept[k] == prev[k]);
                }
            }
        }
    }
    Ok((doc.series_name.clone(), rows))
}

/// The title of the Bank Rate series.
pub open spec fn rate_title() -> Seq<char> {
    "Bank of England Bank Rate (%)"@
}

/// `r` is the row made of the Bank of England row `b`.
pub open spec fn is_rate_row(r: Row, b: BoeRow) -> bool {
    let date = parsed_calendar_date(b.date@, boe_date_format());
    &&& r.period == b.date
    &&& r.year == match date {
        Some(d) => Some(d.year),
        None => None,
    }
    &&& r.month == match date {
        Some(d) => Some(d.month),
        None => None,
    }
    &&& r.value == b.value
    &&& r.num == Some(b.value)
}

/// The row made of the Bank of England row `b` whose date reads as `date`.
pub fn rate_row(b: &BoeRow, date: Option<CalendarDate>) -> (r: Row)
    ensures
        r.period == b.date,
        r.year == match date {
            Some(d) => Some(d.year),
            None => None,
        },
        r.month == match date {
            Some(d) => Some(d.month),
            None => None,
        },
        r.value == b.value,
        r.num == Some(b.value),
{
    Row {
        period: b.date.clone(),
        year: match &date {
            Some(d) => Some(d.year),
            None => None,
        },
        month: match &date {
            Some(d) => Some(d.month),
            None => None,
        },
        value: b.value.clone(),
        num: Some(b.value.clone()),
    }
}

/// The title and rows of the Bank Rate series: one row per CSV row, in order.
pub fn series_from_rate(rows: &Vec<BoeRow>) -> (r: (String, Vec<Row>))
    ensures
        r.0@ == rate_title(),
        r.1@.len() == rows@.len(),
        forall|i: int| 0 <= i < rows@.len() ==> is_rate_row(#[trigger] r.1@[i], rows@[i]),
        forall|i: int|
            0 <= i < rows@.len() ==> (written_date(#[trigger] rows@[i].date@) matches Some((y, m, d))
                ==> r.1@[i].year == Some(y) && r.1@[i].month == Some(m)),
{
    let mut out: Vec<Row> = Vec::new();
    let mut i: usize = 0;
    while i < rows.len()
        invariant
            i <= rows@.len(),
            out@.len() == i,
            forall|k: int| 0 <= k < i ==> is_rate_row(#[trigger] out@[k], rows@[k]),
            forall|k: int|
                0 <= k < i ==> (written_date(#[trigger] rows@[k].date@) matches Some((y, m, d))
                    ==> out@[k].year == Some(y) && out@[k].month == Some(m)),
        decreases rows@.len() - i,
    {
        let b = &rows[i];
        out.push(rate_row(b, b.date()));
        i = i + 1;
    }
    (String::from_str("Bank of England Bank Rate (%)"), out)
}

/// Whether a row is shown under `--since since`: it has a year, and that
/// year is `since` or later.
pub open spec fn shown_since(r: Row, since: i32) -> bool {
    match r.year {
        Some(y) => y >= since,
        None => false,
    }
}

/// The rows kept by `--since`: with `Some(since)`, those of year `since` or
/// later, in order; with `None`, all of them.
pub open spec fn rows_since(rows: Seq<Row>, since: Option<i32>) -> Seq<Row> {
    match since {
        Some(s) => rows.filter(|r: Row| shown_since(r, s)),
        None => rows,
    }
}

/// Keeps only the observations from `since` onwards, when it is given.
pub fn retain_since(rows: &mut Vec<Row>, since: Option<i32>)
    ensures
        final(rows)@ == rows_since(old(rows)@, since),
{
    let s = match since {
        Some(s) => s,
        None => return ,
    };
    let mut kept: Vec<Row> = Vec::new();
    let mut i: usize = 0;
    let ghost pred = |r: Row| shown_since(r, s);
    while i < rows.len()
        invariant
            i <= rows@.len(),
            rows@ == old(rows)@,
            kept@ == rows@.take(i as int).filter(pred),
            pred == (|r: Row| shown_since(r, s)),
        decreases rows@.len() - i,
    {
        let ghost t = rows@.take(i + 1);
        proof {
            reveal_with_fuel(Seq::<_>::filter, 1);
            assert(t.drop_last() =~= rows@.take(i as int));
            assert(t.last() == rows@[i as int]);
            assert(t.filter(pred) == if pred(t.last()) {
                t.drop_last().filter(pred).push(t.last())
            } else {
                t.drop_last().filter(pred)
            });
        }
        let keep = match rows[i].year {
            Some(y) => y >= s,
            None => false,
        };
        if keep {
            kept.push(copy_row(&rows[i]));
        }
        i = i + 1;
    }
    assert(rows@.take(rows@.len() as int) =~= rows@);
    *rows = kept;
}

} // verus!
