//! Calendar dates read from text with chrono.

use vstd::prelude::*;

use chrono::Datelike;

use crate::text::ascii_lowercase;

verus! {

/// A calendar date as plain numbers.
pub struct CalendarDate {
    pub year: i32,
    /// 1-12
    pub month: u32,
    /// 1-31
    pub day: u32,
}

/// Names the date, as (year, month, day), that `chrono::NaiveDate::parse_from_str`
/// reads from `text` under the strftime-style format `fmt`, or `None` where it
/// returns an error.
pub uninterp spec fn chrono_parsed_date(text: Seq<char>, fmt: Seq<char>) -> Option<(i32, u32, u32)>;

/// The date that `chrono_parsed_date` names, as a `CalendarDate`.
pub open spec fn parsed_calendar_date(text: Seq<char>, fmt: Seq<char>) -> Option<CalendarDate> {
    match chrono_parsed_date(text, fmt) {
        Some((y, m, d)) => Some(CalendarDate { year: y, month: m, day: d }),
        None => None,
    }
}

/// The English name of month `k` (1 for January) in lowercase; empty for
/// numbers that name no month.
pub open spec fn month_name(k: int) -> Seq<char> {
    if k == 1 {
        seq!['j', 'a', 'n', 'u', 'a', 'r', 'y']
    } else if k == 2 {
        seq!['f', 'e', 'b', 'r', 'u', 'a', 'r', 'y']
    } else if k == 3 {
        seq!['m', 'a', 'r', 'c', 'h']
    } else if k == 4 {
        seq!['a', 'p', 'r', 'i', 'l']
    } else if k == 5 {
        seq!['m', 'a', 'y']
    } else if k == 6 {
        seq!['j', 'u', 'n', 'e']
    } else if k == 7 {
        seq!['j', 'u', 'l', 'y']
    } else if k == 8 {
        seq!['a', 'u', 'g', 'u', 's', 't']
    } else if k == 9 {
        seq!['s', 'e', 'p', 't', 'e', 'm', 'b', 'e', 'r']
    } else if k == 10 {
        seq!['o', 'c', 't', 'o', 'b', 'e', 'r']
    } else if k == 11 {
        seq!['n', 'o', 'v', 'e', 'm', 'b', 'e', 'r']
    } else if k == 12 {
        seq!['d', 'e', 'c', 'e', 'm', 'b', 'e', 'r']
    } else {
        Seq::empty()
    }
}

/// `name` is the English name of month `k`, in full or by its first three
/// letters, in any mix of ASCII capitals and small letters.
pub open spec fn names_month(name: Seq<char>, k: int) -> bool {
    &&& 1 <= k <= 12
    &&& (ascii_lowercase(name) == month_name(k) || ascii_lowercase(name) == month_name(k).take(3))
}

/// The month that `name` names in English, if any.
pub open spec fn english_month(name: Seq<char>) -> Option<u32> {
    if exists|k: int| names_month(name, k) {
        Some((choose|k: int| names_month(name, k)) as u32)
    } else {
        None
    }
}

/// The month named in a text of the form `01 {name} 2000`, where the name is
/// an English month name as `names_month` reads it.
pub open spec fn probed_month(text: Seq<char>) -> Option<u32> {
    if text.len() >= 8 && text.take(3) == seq!['0', '1', ' '] && text.skip(text.len() - 5) == seq![
        ' ',
        '2',
        '0',
        '0',
        '0',
    ] {
        english_month(text.subrange(3, text.len() - 5))
    } else {
        None
    }
}

/// `c` is an ASCII digit.
pub open spec fn is_digit_char(c: char) -> bool {
    '0' <= c <= '9'
}

/// The value of the ASCII digit `c`.
pub open spec fn digit_value(c: char) -> int {
    (c as int) - ('0' as int)
}

/// Whether `year` is a leap year of the Gregorian calendar.
pub open spec fn is_leap_year(year: int) -> bool {
    year % 4 == 0 && (year % 100 != 0 || year % 400 == 0)
}

/// The number of days of month `month` (1-12) of `year`.
pub open spec fn days_in_month(year: int, month: int) -> int {
    if month == 2 {
        if is_leap_year(year) {
            29
        } else {
            28
        }
    } else if month == 4 || month == 6 || month == 9 || month == 11 {
        30
    } else {
        31
    }
}

/// The date written as `DD Mon YYYY`: two digits of the day, a space, the
/// first three letters of the English month name in any ASCII case, a space
/// and four digits of the year, as (year, month, day), where that day exists.
pub open spec fn written_date(text: Seq<char>) -> Option<(i32, u32, u32)> {
    if text.len() == 11 && is_digit_char(text[0]) && is_digit_char(text[1]) && text[2] == ' '
        && text[6] == ' ' && is_digit_char(text[7]) && is_digit_char(text[8]) && is_digit_char(
        text[9],
    ) && is_digit_char(text[10]) {
        let day = 10 * digit_value(text[0]) + digit_value(text[1]);
        let year = 1000 * digit_value(text[7]) + 100 * digit_value(text[8]) + 10 * digit_value(
            text[9],
        ) + digit_value(text[10]);
        match english_month(text.subrange(3, 6)) {
            Some(m) => if 1 <= day <= days_in_month(year, m as int) {
                Some((year as i32, m, day as u32))
            } else {
                None
            },
            None => None,
        }
    } else {
        None
    }
}

/// Calls `chrono::NaiveDate::parse_from_str(text, fmt)` and reads year, month
/// and day off the date it returns. The result is named `chrono_parsed_date`.
/// The contract adds that a chrono date has a month in 1..=12 and a day in
/// 1..=31, as `Datelike::month` and `Datelike::day` document, and one fact
/// of chrono's parser: under `%d %B %Y` it reads `01 {name} 2000` as the
/// first of that month in 2000 when the name is an English month name, in
/// full or by its first three letters, in any ASCII case (`%B` matches the
/// first three letters ignoring ASCII case, then the rest of the full name if
/// it follows; a space in the format skips whitespace; `%d` and `%Y` read up
/// to two and four digits). Under `%d %b %Y` it reads a date written as
/// `02 Jan 2024` as that date, where the date exists (`%b` matches the first
/// three letters of the name ignoring ASCII case; chrono's calendar is the
/// proleptic Gregorian one). What it reads from other texts is left unsaid.
#[verifier::external_body]
fn chrono_parse_date(text: &str, fmt: &str) -> (r: Option<(i32, u32, u32)>)
    ensures
        r == chrono_parsed_date(text@, fmt@),
        r matches Some((y, m, d)) ==> 1 <= m <= 12 && 1 <= d <= 31,
        fmt@ == seq!['%', 'd', ' ', '%', 'B', ' ', '%', 'Y'] && probed_month(text@) is Some ==> r
            == Some((2000i32, probed_month(text@)->0, 1u32)),
        fmt@ == seq!['%', 'd', ' ', '%', 'b', ' ', '%', 'Y'] && written_date(text@) is Some ==> r
            == written_date(text@),
{
    match chrono::NaiveDate::parse_from_str(text, fmt) {
        Ok(d) => Some((d.year(), d.month(), d.day())),
        Err(_) => None,
    }
}

/// Reads `text` under `fmt` as chrono does, as a `CalendarDate`.
fn parse_date(text: &str, fmt: &str) -> (r: Option<CalendarDate>)
    ensures
        r == parsed_calendar_date(text@, fmt@),
        r matches Some(d) ==> 1 <= d.month <= 12 && 1 <= d.day <= 31,
        fmt@ == month_probe_format() && probed_month(text@) is Some ==> r == Some(
            CalendarDate { year: 2000, month: probed_month(text@)->0, day: 1 },
        ),
        fmt@ == boe_date_format() ==> (written_date(text@) matches Some((y, m, d)) ==> r == Some(
            CalendarDate { year: y, month: m, day: d },
        )),
{
    match chrono_parse_date(text, fmt) {
        Some((y, m, d)) => Some(CalendarDate { year: y, month: m, day: d }),
        None => None,
    }
}

/// The text that `month_number` hands to chrono for a month name.
pub open spec fn month_probe(name: Seq<char>) -> Seq<char> {
    seq!['0', '1', ' '] + name + seq![' ', '2', '0', '0', '0']
}

/// The format under which `month_number` reads its probe: day, full or
/// abbreviated month name, year.
pub open spec fn month_probe_format() -> Seq<char> {
    seq!['%', 'd', ' ', '%', 'B', ' ', '%', 'Y']
}

/// The format of Bank of England dates ("02 Jan 2024").
pub open spec fn boe_date_format() -> Seq<char> {
    seq!['%', 'd', ' ', '%', 'b', ' ', '%', 'Y']
}

/// The month that chrono reads from the name in the date "01 {name} 2000".
pub open spec fn month_of_name(name: Seq<char>) -> Option<u32> {
    match parsed_calendar_date(month_probe(name), month_probe_format()) {
        Some(d) => Some(d.month),
        None => None,
    }
}

/// A name names at most one month.
proof fn lemma_month_named_once(name: Seq<char>, k: int)
    requires
        names_month(name, k),
    ensures
        forall|j: int| #[trigger] names_month(name, j) ==> j == k,
        english_month(name) == Some(k as u32),
{
    let n = ascii_lowercase(name);
    assert forall|j: int| #[trigger] names_month(name, j) implies j == k by {
        assert(n.take(3) == month_name(j).take(3));
        assert(n.take(3) == month_name(k).take(3));
        assert(n[0] == month_name(j)[0] && n[1] == month_name(j)[1] && n[2] == month_name(j)[2]);
        assert(n[0] == month_name(k)[0] && n[1] == month_name(k)[1] && n[2] == month_name(k)[2]);
    }
}

/// "January" / "May" -> 1 / 5, as chrono reads the name in the date
/// "01 {name} 2000". Empty or unrecognized -> None.
pub fn month_number(name: &str) -> (r: Option<u32>)
    ensures
        r == month_of_name(name@),
        r matches Some(m) ==> 1 <= m <= 12,
        forall|k: int| #[trigger] names_month(name@, k) ==> r == Some(k as u32),
{
    let mut probe = String::new();
    proof {
        reveal_strlit("01 ");
        reveal_strlit(" 2000");
        reveal_strlit("%d %B %Y");
    }
    probe.append("01 ");
    probe.append(name);
    probe.append(" 2000");
    assert(probe@ =~= month_probe(name@));
    let fmt = "%d %B %Y";
    assert(fmt@ =~= month_probe_format());
    proof {
        assert(probe@.take(3) =~= seq!['0', '1', ' ']);
        assert(probe@.skip(probe@.len() - 5) =~= seq![' ', '2', '0', '0', '0']);
        assert(probe@.subrange(3, probe@.len() - 5) =~= name@);
        assert forall|k: int| #[trigger] names_month(name@, k) implies english_month(name@) == Some(k as u32) by {
            lemma_month_named_once(name@, k);
        }
    }
    match parse_date(probe.as_str(), fmt) {
        Some(d) => Some(d.month),
        None => None,
    }
}

/// Reads a Bank of England date such as "02 Jan 2024".
pub fn boe_date(text: &str) -> (r: Option<CalendarDate>)
    ensures
        r == parsed_calendar_date(text@, boe_date_format()),
        r matches Some(d) ==> 1 <= d.month <= 12 && 1 <= d.day <= 31,
        written_date(text@) matches Some((y, m, d)) ==> r == Some(
            CalendarDate { year: y, month: m, day: d },
        ),
{
    proof {
        reveal_strlit("%d %b %Y");
    }
    let fmt = "%d %b %Y";
    assert(fmt@ =~= boe_date_format());
    parse_date(text, fmt)
}

} // verus!
