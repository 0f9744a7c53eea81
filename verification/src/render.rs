//! What the tool prints: tables padded into columns, CSV documents, and the
//! precision to which numeric values are displayed.

use vstd::prelude::*;
use vstd::string::StringSliceAdditionalSpecFns;

use crate::align::{period_text, ComparedRow};
use crate::csv_out::{csv_document, csv_encode, field_texts};
use crate::cli::Format;
use crate::series::{kind_name, Row, SeriesKind};
use crate::text::{pad_right, push_padded, to_uppercase, unicode_uppercase, utf8_len};

verus! {

/// The number of bytes after the first `.` of `s`, or 0 without one: how
/// many decimal places a rendering shows.
pub open spec fn decimals_in(s: Seq<u8>) -> nat
    decreases s.len(),
{
    if s.len() == 0 {
        0
    } else if s[0] == 46u8 {
        (s.len() - 1) as nat
    } else {
        decimals_in(s.drop_first())
    }
}

/// The most decimal places that any of the renderings shows, 0 for none.
pub open spec fn most_decimals(renderings: Seq<String>) -> nat
    decreases renderings.len(),
{
    if renderings.len() == 0 {
        0
    } else {
        let a = most_decimals(renderings.drop_last());
        let b = decimals_in(vstd::utf8::encode_utf8(renderings.last()@));
        if a >= b {
            a
        } else {
            b
        }
    }
}

/// The precision to which a series is displayed: the most decimal places
/// any of its values needs, at most 4.
pub open spec fn uniform_decimals(renderings: Seq<String>) -> nat {
    let m = most_decimals(renderings);
    if m <= 4 {
        m
    } else {
        4
    }
}

/// The decimal places that one rendering shows.
fn decimals_of(s: &str) -> (r: usize)
    ensures
        r == decimals_in(s.spec_bytes()),
{
    let bytes = s.as_bytes();
    assert(bytes@.skip(0) =~= bytes@);
    let mut j: usize = 0;
    while j < bytes.len()
        invariant
            j <= bytes@.len(),
            bytes@ == s.spec_bytes(),
            decimals_in(bytes@) == decimals_in(bytes@.skip(j as int)),
        decreases bytes@.len() - j,
    {
        assert(bytes@.skip(j as int).drop_first() =~= bytes@.skip(j + 1));
        if bytes[j] == 46u8 {
            assert(bytes@.skip(j as int)[0] == bytes@[j as int]);
            return bytes.len() - j - 1;
        }
        j = j + 1;
    }
    0
}

/// The precision for a series whose numbers render as `renderings` (what
/// `{}` writes for each): the most decimal places any of them shows, at most
/// 4; 0 for none, so that an all-integer series stays integer.
pub fn max_decimals(renderings: &Vec<String>) -> (r: usize)
    ensures
        r == uniform_decimals(renderings@),
{
    let mut most: usize = 0;
    let mut i: usize = 0;
    while i < renderings.len()
        invariant
            i <= renderings@.len(),
            most == most_decimals(renderings@.take(i as int)),
        decreases renderings@.len() - i,
    {
        assert(renderings@.take(i + 1).drop_last() =~= renderings@.take(i as int));
        let d = decimals_of(renderings[i].as_str());
        if d > most {
            most = d;
        }
        i = i + 1;
    }
    assert(renderings@.take(renderings@.len() as int) =~= renderings@);
    if most <= 4 {
        most
    } else {
        4
    }
}

/// "PERIOD"
pub open spec fn period_heading() -> Seq<char> {
    seq!['P', 'E', 'R', 'I', 'O', 'D']
}

/// The widest period of `rows`, in bytes, 0 for none.
pub open spec fn widest_period(rows: Seq<Row>) -> nat
    decreases rows.len(),
{
    if rows.len() == 0 {
        0
    } else {
        let a = widest_period(rows.drop_last());
        let b = utf8_len(rows.last().period@);
        if a >= b {
            a
        } else {
            b
        }
    }
}

/// The width of a table's period column: its widest period, and at least
/// the width of the heading.
pub open spec fn table_width(rows: Seq<Row>) -> nat {
    let w = widest_period(rows);
    if w >= 6 {
        w
    } else {
        6
    }
}

/// The heading line of a table.
pub open spec fn table_heading(width: nat) -> Seq<char> {
    pad_right(period_heading(), width) + seq![' ', ' ', 'V', 'A', 'L', 'U', 'E']
}

/// The line of a table for one row.
pub open spec fn table_line(r: Row, width: nat) -> Seq<char> {
    pad_right(r.period@, width) + seq![' ', ' '] + r.value@
}

/// `lines` is the table of `rows` under `title`: the title, a blank line,
/// the heading, then one line per row with the period padded to the column
/// width.
pub open spec fn is_table(title: Seq<char>, rows: Seq<Row>, lines: Seq<String>) -> bool {
    &&& lines.len() == rows.len() + 3
    &&& lines[0]@ == title
    &&& lines[1]@ == Seq::<char>::empty()
    &&& lines[2]@ == table_heading(table_width(rows))
    &&& forall|i: int|
        0 <= i < rows.len() ==> (#[trigger] lines[i + 3])@ == table_line(rows[i], table_width(rows))
}

/// The lines of a table: the title, a blank line, the heading, then one
/// line per row with the period padded to the column width.
pub fn table_lines(title: &str, rows: &Vec<Row>) -> (r: Vec<String>)
    ensures
        is_table(title@, rows@, r@),
{
    let mut widest: usize = 0;
    let mut i: usize = 0;
    while i < rows.len()
        invariant
            i <= rows@.len(),
            widest == widest_period(rows@.take(i as int)),
        decreases rows@.len() - i,
    {
        assert(rows@.take(i + 1).drop_last() =~= rows@.take(i as int));
        assert(rows@.take(i + 1).last() == rows@[i as int]);
        let n = rows[i].period.as_str().as_bytes().len();
        if n > widest {
            widest = n;
        }
        i = i + 1;
    }
    assert(rows@.take(rows@.len() as int) =~= rows@);
    let width = if widest >= 6 {
        widest
    } else {
        6
    };
    proof {
        reveal_strlit("PERIOD");
        reveal_strlit("  VALUE");
        reveal_strlit("  ");
    }
    let mut lines: Vec<String> = Vec::new();
    lines.push(String::from_str(title));
    lines.push(String::new());
    let mut heading = String::new();
    push_padded(&mut heading, "PERIOD", width);
    heading.append("  VALUE");
    assert(heading@ =~= table_heading(table_width(rows@)));
    lines.push(heading);
    let mut k: usize = 0;
    while k < rows.len()
        invariant
            k <= rows@.len(),
            width == table_width(rows@),
            lines@.len() == k + 3,
            lines@[0]@ == title@,
            lines@[1]@ == Seq::<char>::empty(),
            lines@[2]@ == table_heading(table_width(rows@)),
            forall|j: int|
                0 <= j < k ==> (#[trigger] lines@[j + 3])@ == table_line(
                    rows@[j],
                    table_width(rows@),
                ),
        decreases rows@.len() - k,
    {
        proof {
            reveal_strlit("  ");
        }
        let mut line = String::new();
        push_padded(&mut line, rows[k].period.as_str(), width);
        line.append("  ");
        line.append(rows[k].value.as_str());
        assert(line@ =~= table_line(rows@[k as int], table_width(rows@)));
        lines.push(line);
        k = k + 1;
    }
    lines
}

/// The widest base value of `rows`, in bytes, 0 for none.
pub open spec fn widest_base(rows: Seq<ComparedRow>) -> nat
    decreases rows.len(),
{
    if rows.len() == 0 {
        0
    } else {
        let a = widest_base(rows.drop_last());
        let b = utf8_len(rows.last().base@);
        if a >= b {
            a
        } else {
            b
        }
    }
}

/// The width of the base column of a comparison: its widest value, and at
/// least the width of its heading.
pub open spec fn base_width(rows: Seq<ComparedRow>, base_name: Seq<char>) -> nat {
    let w = widest_base(rows);
    let h = utf8_len(unicode_uppercase(base_name));
    if w >= h {
        w
    } else {
        h
    }
}

/// The title line of a comparison: "{base} vs {target}".
pub open spec fn compare_title(base_name: Seq<char>, target_name: Seq<char>) -> Seq<char> {
    base_name + seq![' ', 'v', 's', ' '] + target_name
}

/// The heading line of a comparison: the period heading padded to 7
/// characters, then the series names in capitals.
pub open spec fn compare_heading(base_name: Seq<char>, target_name: Seq<char>, width: nat) -> Seq<
    char,
> {
    pad_right(period_heading(), 7) + seq![' ', ' '] + pad_right(unicode_uppercase(base_name), width)
        + seq![' ', ' '] + unicode_uppercase(target_name)
}

/// The line of a comparison for one month.
pub open spec fn compare_line(r: ComparedRow, width: nat) -> Seq<char> {
    pad_right(period_text(r.year, r.month), 7) + seq![' ', ' '] + pad_right(r.base@, width) + seq![
        ' ',
        ' ',
    ] + r.target@
}

/// `lines` is the comparison table of `rows`: the title, a blank line, the
/// heading, then one line per month with the base column padded to its
/// width.
pub open spec fn is_compare_table(
    base_name: Seq<char>,
    target_name: Seq<char>,
    rows: Seq<ComparedRow>,
    lines: Seq<String>,
) -> bool {
    &&& lines.len() == rows.len() + 3
    &&& lines[0]@ == compare_title(base_name, target_name)
    &&& lines[1]@ == Seq::<char>::empty()
    &&& lines[2]@ == compare_heading(base_name, target_name, base_width(rows, base_name))
    &&& forall|i: int|
        0 <= i < rows.len() ==> (#[trigger] lines[i + 3])@ == compare_line(
            rows[i],
            base_width(rows, base_name),
        )
}

/// The lines of a comparison table: the title, a blank line, the heading,
/// then one line per month with the base column padded to its width.
pub fn compare_table_lines(base_name: &str, target_name: &str, rows: &Vec<ComparedRow>) -> (r: Vec<
    String,
>)
    ensures
        is_compare_table(base_name@, target_name@, rows@, r@),
{
    let base_header = to_uppercase(base_name);
    let mut widest: usize = 0;
    let mut i: usize = 0;
    while i < rows.len()
        invariant
            i <= rows@.len(),
            widest == widest_base(rows@.take(i as int)),
        decreases rows@.len() - i,
    {
        assert(rows@.take(i + 1).drop_last() =~= rows@.take(i as int));
        assert(rows@.take(i + 1).last() == rows@[i as int]);
        let n = rows[i].base.as_str().as_bytes().len();
        if n > widest {
            widest = n;
        }
        i = i + 1;
    }
    assert(rows@.take(rows@.len() as int) =~= rows@);
    let h = base_header.as_str().as_bytes().len();
    let width = if widest >= h {
        widest
    } else {
        h
    };
    proof {
        reveal_strlit("PERIOD");
        reveal_strlit(" vs ");
        reveal_strlit("  ");
    }
    let mut lines: Vec<String> = Vec::new();
    let mut title = String::from_str(base_name);
    title.append(" vs ");
    title.append(target_name);
    assert(title@ =~= compare_title(base_name@, target_name@));
    lines.push(title);
    lines.push(String::new());
    let mut heading = String::new();
    push_padded(&mut heading, "PERIOD", 7);
    heading.append("  ");
    push_padded(&mut heading, base_header.as_str(), width);
    heading.append("  ");
    let target_header = to_uppercase(target_name);
    heading.append(target_header.as_str());
    assert(heading@ =~= compare_heading(base_name@, target_name@, base_width(rows@, base_name@)));
    lines.push(heading);
    let mut k: usize = 0;
    while k < rows.len()
        invariant
            k <= rows@.len(),
            width == base_width(rows@, base_name@),
            lines@.len() == k + 3,
            lines@[0]@ == compare_title(base_name@, target_name@),
            lines@[1]@ == Seq::<char>::empty(),
            lines@[2]@ == compare_heading(base_name@, target_name@, base_width(rows@, base_name@)),
            forall|j: int|
                0 <= j < k ==> (#[trigger] lines@[j + 3])@ == compare_line(
                    rows@[j],
                    base_width(rows@, base_name@),
                ),
        decreases rows@.len() - k,
    {
        proof {
            reveal_strlit("  ");
        }
        let row = &rows[k];
        let period = row.period();
        let mut line = String::new();
        push_padded(&mut line, period.as_str(), 7);
        line.append("  ");
        push_padded(&mut line, row.base.as_str(), width);
        line.append("  ");
        line.append(row.target.as_str());
        assert(line@ =~= compare_line(rows@[k as int], base_width(rows@, base_name@)));
        lines.push(line);
        k = k + 1;
    }
    lines
}

/// The records of a series' CSV: a `period,value` header, then one record
/// per row.
pub open spec fn table_records(rows: Seq<Row>) -> Seq<Seq<Seq<char>>> {
    seq![seq![seq!['p', 'e', 'r', 'i', 'o', 'd'], seq!['v', 'a', 'l', 'u', 'e']]] + rows.map_values(
        |r: Row| seq![r.period@, r.value@],
    )
}

/// A series as CSV: a `period,value` header, then one record per row.
pub fn csv_table(rows: &Vec<Row>) -> (r: Vec<u8>)
    ensures
        r@ == csv_document(table_records(rows@)),
{
    proof {
        reveal_strlit("period");
        reveal_strlit("value");
    }
    let mut records: Vec<Vec<String>> = Vec::new();
    let mut header: Vec<String> = Vec::new();
    header.push(String::from_str("period"));
    header.push(String::from_str("value"));
    records.push(header);
    assert(field_texts(records@[0]@) =~~= table_records(rows@)[0]);
    let mut i: usize = 0;
    while i < rows.len()
        invariant
            i <= rows@.len(),
            records@.len() == i + 1,
            forall|k: int| 0 <= k < records@.len() ==> (#[trigger] records@[k])@.len() == 2,
            forall|k: int|
                0 <= k < records@.len() ==> field_texts((#[trigger] records@[k])@)
                    == table_records(rows@)[k],
        decreases rows@.len() - i,
    {
        let mut record: Vec<String> = Vec::new();
        record.push(rows[i].period.clone());
        record.push(rows[i].value.clone());
        assert(field_texts(record@) =~= table_records(rows@)[i + 1]);
        records.push(record);
        i = i + 1;
    }
    assert(records@.map_values(|rec: Vec<String>| field_texts(rec@)) =~= table_records(rows@));
    csv_encode(&records, 2)
}

/// The records of a comparison's CSV: a header naming the two series, then
/// one record per month.
pub open spec fn compare_records(
    base_name: Seq<char>,
    target_name: Seq<char>,
    rows: Seq<ComparedRow>,
) -> Seq<Seq<Seq<char>>> {
    seq![seq![seq!['p', 'e', 'r', 'i', 'o', 'd'], base_name, target_name]] + rows.map_values(
        |r: ComparedRow| seq![period_text(r.year, r.month), r.base@, r.target@],
    )
}

/// A comparison as CSV: a `period,{base},{target}` header, then one record
/// per month.
pub fn compare_csv_table(base_name: &str, target_name: &str, rows: &Vec<ComparedRow>) -> (r: Vec<
    u8,
>)
    ensures
        r@ == csv_document(compare_records(base_name@, target_name@, rows@)),
{
    proof {
        reveal_strlit("period");
    }
    let mut records: Vec<Vec<String>> = Vec::new();
    let mut header: Vec<String> = Vec::new();
    header.push(String::from_str("period"));
    header.push(String::from_str(base_name));
    header.push(String::from_str(target_name));
    records.push(header);
    assert(field_texts(records@[0]@) =~~= compare_records(base_name@, target_name@, rows@)[0]);
    let mut i: usize = 0;
    while i < rows.len()
        invariant
            i <= rows@.len(),
            records@.len() == i + 1,
            forall|k: int| 0 <= k < records@.len() ==> (#[trigger] records@[k])@.len() == 3,
            forall|k: int|
                0 <= k < records@.len() ==> field_texts((#[trigger] records@[k])@)
                    == compare_records(base_name@, target_name@, rows@)[k],
        decreases rows@.len() - i,
    {
        let row = &rows[i];
        let mut record: Vec<String> = Vec::new();
        record.push(row.period());
        record.push(row.base.clone());
        record.push(row.target.clone());
        assert(field_texts(record@) =~= compare_records(base_name@, target_name@, rows@)[i + 1]);
        records.push(record);
        i = i + 1;
    }
    assert(records@.map_values(|rec: Vec<String>| field_texts(rec@)) =~= compare_records(
        base_name@,
        target_name@,
        rows@,
    ));
    csv_encode(&records, 3)
}

/// What the tool prints: the lines of a table, or the bytes of a CSV
/// document.
pub enum Output {
    Lines(Vec<String>),
    Bytes(Vec<u8>),
}

/// The output of one series in `format`: its table under `title`, or its
/// CSV (which carries no title).
pub fn series_output(format: Format, title: &str, rows: &Vec<Row>) -> (r: Output)
    ensures
        match format {
            Format::Table => r matches Output::Lines(lines) && is_table(title@, rows@, lines@),
            Format::Csv => r matches Output::Bytes(bytes) && bytes@ == csv_document(
                table_records(rows@),
            ),
        },
{
    match format {
        Format::Table => Output::Lines(table_lines(title, rows)),
        Format::Csv => Output::Bytes(csv_table(rows)),
    }
}

/// The output of the comparison of `base` with `target` in `format`: its
/// table or its CSV, headed with the two series' names.
pub fn compare_output(
    format: Format,
    base: SeriesKind,
    target: SeriesKind,
    rows: &Vec<ComparedRow>,
) -> (r: Output)
    ensures
        match format {
            Format::Table => r matches Output::Lines(lines) && is_compare_table(
                kind_name(base),
                kind_name(target),
                rows@,
                lines@,
            ),
            Format::Csv => r matches Output::Bytes(bytes) && bytes@ == csv_document(
                compare_records(kind_name(base), kind_name(target), rows@),
            ),
        },
{
    match format {
        Format::Table => Output::Lines(compare_table_lines(base.name(), target.name(), rows)),
        Format::Csv => Output::Bytes(compare_csv_table(base.name(), target.name(), rows)),
    }
}

} // verus!
