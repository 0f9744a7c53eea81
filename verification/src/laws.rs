//! Properties that hold across the library's functions.

use vstd::prelude::*;

use crate::align::{
    compared_key, is_monthly_join, month_before, month_value, period_text, ComparedRow,
};
use crate::cache::{age_nanos, MAX_AGE_SECS};
use crate::cli::{run_outcome, Cli, Command, Plan, RunError, SeriesArgs};
use crate::ons::{populated_observations, Description, SeriesResponse};
use crate::render::{
    base_width, compare_heading, compare_line, widest_base, decimals_in, most_decimals, table_heading, table_line, table_width, uniform_decimals,
    widest_period,
};
use crate::text::{decimal, pad_right, signed_decimal, two_digit_decimal, utf8_len};
use crate::series::{
    ons_title, request_parts, rows_since, series_code, shown_since, Row, SeriesKind, Source, CPIH_URL, GDP_URL,
    INACTIVITY_URL, RATE_URL, UNEMPLOYMENT_URL, WAGES_URL,
};
use crate::text::{
    all_digits, ascii_lowercase, decimal_integer, digit_char, digits_value, parsed_i32, parsed_u32,
    unicode_uppercase,
};

verus! {

/// A month has a value in a series only if some row of the series falls in it.
pub proof fn lemma_month_value_has_row(rows: Seq<Row>, y: i32, m: u32)
    requires
        month_value(rows, y, m) is Some,
    ensures
        exists|k: int| 0 <= k < rows.len() && #[trigger] rows[k].year == Some(y) && rows[k].month == Some(m),
    decreases rows.len(),
{
    if rows.last().year == Some(y) && rows.last().month == Some(m) {
        assert(rows[rows.len() - 1].year == Some(y));
    } else {
        lemma_month_value_has_row(rows.drop_last(), y, m);
        let k = choose|k: int|
            0 <= k < rows.drop_last().len() && #[trigger] rows.drop_last()[k].year == Some(y)
                && rows.drop_last()[k].month == Some(m);
        assert(rows[k] == rows.drop_last()[k]);
    }
}

/// `--since` carries over to a comparison: when both series are cut to the
/// observations from `since` onwards before they are joined, every month of
/// the join is in `since` or later.
pub proof fn lemma_join_respects_since(
    base: Seq<Row>,
    target: Seq<Row>,
    since: i32,
    joined: Seq<ComparedRow>,
)
    requires
        is_monthly_join(rows_since(base, Some(since)), rows_since(target, Some(since)), joined),
    ensures
        forall|i: int| 0 <= i < joined.len() ==> #[trigger] joined[i].year >= since,
{
    let kept = rows_since(base, Some(since));
    let pred = |r: Row| shown_since(r, since);
    assert forall|i: int| 0 <= i < joined.len() implies #[trigger] joined[i].year >= since by {
        assert(month_value(kept, joined[i].year, joined[i].month) is Some);
        lemma_month_value_has_row(kept, joined[i].year, joined[i].month);
        let k = choose|k: int|
            0 <= k < kept.len() && #[trigger] kept[k].year == Some(joined[i].year) && kept[k].month
                == Some(joined[i].month);
        base.lemma_filter_pred(pred, k);
        assert(pred(kept[k]));
    }
}

/// The join does not depend on which series is called the base: joining
/// the other way round gives the same months with the two values swapped.
pub proof fn lemma_join_swaps(base: Seq<Row>, target: Seq<Row>, joined: Seq<ComparedRow>)
    requires
        is_monthly_join(base, target, joined),
    ensures
        is_monthly_join(
            target,
            base,
            joined.map_values(
                |r: ComparedRow|
                    ComparedRow { year: r.year, month: r.month, base: r.target, target: r.base },
            ),
        ),
{
    let swapped = joined.map_values(
        |r: ComparedRow| ComparedRow { year: r.year, month: r.month, base: r.target, target: r.base },
    );
    assert forall|i: int| 0 <= i < joined.len() implies #[trigger] swapped[i] == (ComparedRow {
        year: joined[i].year,
        month: joined[i].month,
        base: joined[i].target,
        target: joined[i].base,
    }) by {}
    assert forall|i: int, j: int|
        0 <= i < j < swapped.len() implies month_before(
        #[trigger] compared_key(swapped[i]),
        #[trigger] compared_key(swapped[j]),
    ) by {
        assert(month_before(compared_key(joined[i]), compared_key(joined[j])));
    }
    assert forall|i: int| 0 <= i < swapped.len() implies {
        &&& month_value(target, #[trigger] swapped[i].year, swapped[i].month) == Some(swapped[i].base@)
        &&& month_value(base, swapped[i].year, swapped[i].month) == Some(swapped[i].target@)
    } by {
        assert(month_value(base, joined[i].year, joined[i].month) == Some(joined[i].base@));
    }
    assert forall|y: i32, m: u32|
        (#[trigger] month_value(target, y, m)) is Some && (#[trigger] month_value(
            base,
            y,
            m,
        )) is Some implies exists|i: int|
        0 <= i < swapped.len() && swapped[i].year == y && swapped[i].month == m by {
        let i = choose|i: int| 0 <= i < joined.len() && joined[i].year == y && joined[i].month == m;
        assert(swapped[i].year == y);
    }
}

/// `a` is strictly increasing.
spec fn months_increasing(a: Seq<(i32, u32)>) -> bool {
    forall|i: int, j: int| 0 <= i < j < a.len() ==> month_before(#[trigger] a[i], #[trigger] a[j])
}

/// Every month of `a` is one of `b`.
spec fn months_within(a: Seq<(i32, u32)>, b: Seq<(i32, u32)>) -> bool {
    forall|i: int| 0 <= i < a.len() ==> b.contains(#[trigger] a[i])
}

/// Under the hypotheses of `lemma_sorted_months_unique`, the two sequences
/// agree at every index where both have an element.
proof fn lemma_sorted_months_agree(a: Seq<(i32, u32)>, b: Seq<(i32, u32)>, i: int)
    requires
        months_increasing(a),
        months_increasing(b),
        months_within(a, b),
        months_within(b, a),
        0 <= i < a.len(),
        i < b.len(),
    ensures
        a[i] == b[i],
    decreases i,
{
    assert forall|k: int| 0 <= k < i implies a[k] == b[k] by {
        lemma_sorted_months_agree(a, b, k);
    }
    assert(b.contains(a[i]));
    assert(a.contains(b[i]));
    let ja = choose|j: int| 0 <= j < b.len() && b[j] == a[i];
    let jb = choose|j: int| 0 <= j < a.len() && a[j] == b[i];
    if ja < i {
        assert(a[ja] == b[ja]);
        assert(month_before(a[ja], a[i]));
    }
    if jb < i {
        assert(a[jb] == b[jb]);
        assert(month_before(b[jb], b[i]));
    }
    if ja > i {
        assert(month_before(b[i], b[ja]));
    }
    if jb > i {
        assert(month_before(a[i], a[jb]));
    }
}

/// Two strictly increasing sequences of months that hold the same months
/// are the same sequence.
proof fn lemma_sorted_months_unique(a: Seq<(i32, u32)>, b: Seq<(i32, u32)>)
    requires
        months_increasing(a),
        months_increasing(b),
        months_within(a, b),
        months_within(b, a),
    ensures
        a == b,
{
    let n = if a.len() <= b.len() {
        a.len()
    } else {
        b.len()
    };
    assert forall|i: int| 0 <= i < n implies a[i] == b[i] by {
        lemma_sorted_months_agree(a, b, i);
    }
    if a.len() > b.len() {
        let k = b.len() as int;
        assert(b.contains(a[k]));
        let j = choose|j: int| 0 <= j < b.len() && b[j] == a[k];
        assert(a[j] == b[j]);
        assert(month_before(a[j], a[k]));
    } else if b.len() > a.len() {
        let k = a.len() as int;
        assert(a.contains(b[k]));
        let j = choose|j: int| 0 <= j < a.len() && a[j] == b[k];
        assert(a[j] == b[j]);
        assert(month_before(b[j], b[k]));
    }
    assert(a =~= b);
}

/// The months of a join, in order.
spec fn join_months(rows: Seq<ComparedRow>) -> Seq<(i32, u32)> {
    rows.map_values(|r: ComparedRow| compared_key(r))
}

/// The months of a join are increasing, and are the months of any other
/// join of the same series.
proof fn lemma_join_months(
    base: Seq<Row>,
    target: Seq<Row>,
    one: Seq<ComparedRow>,
    other: Seq<ComparedRow>,
)
    requires
        is_monthly_join(base, target, one),
        is_monthly_join(base, target, other),
    ensures
        months_increasing(join_months(one)),
        months_within(join_months(one), join_months(other)),
{
    let a = join_months(one);
    let b = join_months(other);
    assert forall|i: int, j: int| 0 <= i < j < a.len() implies month_before(
        #[trigger] a[i],
        #[trigger] a[j],
    ) by {
        assert(month_before(compared_key(one[i]), compared_key(one[j])));
    }
    assert forall|i: int| 0 <= i < a.len() implies b.contains(#[trigger] a[i]) by {
        assert(month_value(base, one[i].year, one[i].month) is Some);
        assert(month_value(target, one[i].year, one[i].month) is Some);
        let j = choose|j: int|
            0 <= j < other.len() && other[j].year == one[i].year && other[j].month == one[i].month;
        assert(b[j] == a[i]);
    }
}

/// The join is determined by the two series: any two sequences that are
/// joins of the same series hold the same months, in the same order, with
/// the same values.
pub proof fn lemma_join_is_unique(
    base: Seq<Row>,
    target: Seq<Row>,
    one: Seq<ComparedRow>,
    other: Seq<ComparedRow>,
)
    requires
        is_monthly_join(base, target, one),
        is_monthly_join(base, target, other),
    ensures
        one.len() == other.len(),
        forall|i: int|
            0 <= i < one.len() ==> {
                &&& #[trigger] one[i].year == other[i].year
                &&& one[i].month == other[i].month
                &&& one[i].base@ == other[i].base@
                &&& one[i].target@ == other[i].target@
            },
{
    let a = join_months(one);
    let b = join_months(other);
    lemma_join_months(base, target, one, other);
    lemma_join_months(base, target, other, one);
    lemma_sorted_months_unique(a, b);
    assert forall|i: int| 0 <= i < one.len() implies {
        &&& #[trigger] one[i].year == other[i].year
        &&& one[i].month == other[i].month
        &&& one[i].base@ == other[i].base@
        &&& one[i].target@ == other[i].target@
    } by {
        assert(a[i] == b[i]);
        assert(month_value(base, one[i].year, one[i].month) == Some(one[i].base@));
        assert(month_value(base, other[i].year, other[i].month) == Some(other[i].base@));
        assert(month_value(target, one[i].year, one[i].month) == Some(one[i].target@));
        assert(month_value(target, other[i].year, other[i].month) == Some(other[i].target@));
    }
}

/// A rendering without a `.` shows no decimal places.
proof fn lemma_no_dot_no_decimals(s: Seq<u8>)
    requires
        forall|i: int| 0 <= i < s.len() ==> s[i] != 46u8,
    ensures
        decimals_in(s) == 0,
    decreases s.len(),
{
    if s.len() > 0 {
        assert forall|i: int| 0 <= i < s.drop_first().len() implies s.drop_first()[i] != 46u8 by {
            assert(s.drop_first()[i] == s[i + 1]);
        }
        lemma_no_dot_no_decimals(s.drop_first());
    }
}

/// An all-integer series stays integer: when no value's rendering holds a
/// `.`, values are displayed with no decimal places.
pub proof fn lemma_integers_stay_integer(renderings: Seq<String>)
    requires
        forall|i: int, j: int|
            0 <= i < renderings.len() && 0 <= j < vstd::utf8::encode_utf8(
                (#[trigger] renderings[i])@,
            ).len() ==> #[trigger] vstd::utf8::encode_utf8(renderings[i]@)[j] != 46u8,
    ensures
        uniform_decimals(renderings) == 0,
    decreases renderings.len(),
{
    if renderings.len() > 0 {
        let rest = renderings.drop_last();
        assert forall|i: int, j: int|
            0 <= i < rest.len() && 0 <= j < vstd::utf8::encode_utf8((#[trigger] rest[i])@).len()
                implies #[trigger] vstd::utf8::encode_utf8(rest[i]@)[j] != 46u8 by {
            assert(rest[i] == renderings[i]);
        }
        lemma_integers_stay_integer(rest);
        let last = vstd::utf8::encode_utf8(renderings.last()@);
        assert forall|j: int| 0 <= j < last.len() implies last[j] != 46u8 by {
            assert(renderings[renderings.len() - 1] == renderings.last());
            assert(vstd::utf8::encode_utf8(renderings[renderings.len() - 1]@)[j] != 46u8);
        }
        lemma_no_dot_no_decimals(last);
    }
}

/// The displayed precision never exceeds four decimal places, and covers
/// every value that needs fewer.
pub proof fn lemma_uniform_decimals_bounds(renderings: Seq<String>, i: int)
    requires
        0 <= i < renderings.len(),
    ensures
        uniform_decimals(renderings) <= 4,
        decimals_in(vstd::utf8::encode_utf8(renderings[i]@)) <= 4 ==> decimals_in(
            vstd::utf8::encode_utf8(renderings[i]@),
        ) <= uniform_decimals(renderings),
    decreases renderings.len(),
{
    if i < renderings.len() - 1 {
        lemma_uniform_decimals_bounds(renderings.drop_last(), i);
        assert(renderings.drop_last()[i] == renderings[i]);
    }
}

/// Exactly one of the lists populated: the observations are that list.
pub proof fn lemma_native_frequency(s: SeriesResponse)
    requires
        (s.years@.len() > 0) as int + (s.quarters@.len() > 0) as int + (s.months@.len() > 0) as int
            == 1,
    ensures
        s.years@.len() > 0 ==> populated_observations(s) == s.years@,
        s.quarters@.len() > 0 ==> populated_observations(s) == s.quarters@,
        s.months@.len() > 0 ==> populated_observations(s) == s.months@,
{
}

/// Every period counts toward the width of the period column.
proof fn lemma_widest_period_bounds(rows: Seq<Row>, i: int)
    requires
        0 <= i < rows.len(),
    ensures
        utf8_len(rows[i].period@) <= widest_period(rows),
    decreases rows.len(),
{
    if i < rows.len() - 1 {
        lemma_widest_period_bounds(rows.drop_last(), i);
        assert(rows.drop_last()[i] == rows[i]);
    }
}

/// The columns of a table line up: on the heading and on the line of every
/// row whose period is ASCII, the period column takes exactly the table's
/// width, then come two spaces, then the value (or the `VALUE` heading).
pub proof fn lemma_table_columns_line_up(rows: Seq<Row>, i: int)
    requires
        0 <= i < rows.len(),
        vstd::utf8::is_ascii_chars(rows[i].period@),
    ensures
        ({
            let w = table_width(rows) as int;
            let line = table_line(rows[i], w as nat);
            let heading = table_heading(w as nat);
            &&& line.subrange(0, w) == pad_right(rows[i].period@, w as nat)
            &&& line.subrange(w, w + 2) == seq![' ', ' ']
            &&& line.subrange(w + 2, line.len() as int) == rows[i].value@
            &&& heading.subrange(w, w + 2) == seq![' ', ' ']
            &&& heading.subrange(w + 2, heading.len() as int) == seq!['V', 'A', 'L', 'U', 'E']
        }),
{
    let period = rows[i].period@;
    lemma_widest_period_bounds(rows, i);
    vstd::utf8::is_ascii_chars_encode_utf8(period);
    assert(vstd::utf8::encode_utf8(period).len() == period.len());
    let w = table_width(rows);
    assert(pad_right(period, w).len() == w);
    assert(pad_right(seq!['P', 'E', 'R', 'I', 'O', 'D'], w).len() == w);
    let line = table_line(rows[i], w);
    assert(line.subrange(0, w as int) =~= pad_right(period, w));
    assert(line.subrange(w as int, w as int + 2) =~= seq![' ', ' ']);
    assert(line.subrange(w as int + 2, line.len() as int) =~= rows[i].value@);
    let heading = table_heading(w);
    assert(heading.subrange(w as int, w as int + 2) =~= seq![' ', ' ']);
    assert(heading.subrange(w as int + 2, heading.len() as int) =~= seq!['V', 'A', 'L', 'U', 'E']);
}

/// Numbers of one to four digits are written with that many characters.
proof fn lemma_decimal_len(n: nat)
    ensures
        n < 10 ==> decimal(n).len() == 1,
        10 <= n < 100 ==> decimal(n).len() == 2,
        100 <= n < 1000 ==> decimal(n).len() == 3,
        1000 <= n < 10000 ==> decimal(n).len() == 4,
    decreases n,
{
    if n >= 10 {
        lemma_decimal_len(n / 10);
    }
}

/// The period of a month of a four-digit year is seven characters
/// ("2026-01"), the width of the period column of a comparison.
pub proof fn lemma_period_fits_column(year: i32, month: u32)
    requires
        1000 <= year <= 9999,
        month < 100,
    ensures
        period_text(year, month).len() == 7,
{
    lemma_decimal_len(year as nat);
    lemma_decimal_len(month as nat);
    assert(signed_decimal(year as int) == decimal(year as nat));
    assert(two_digit_decimal(month as nat).len() == 2);
}

/// Filtering twice, by a weaker then a stronger condition, is filtering by
/// the stronger one.
proof fn lemma_filter_twice(rows: Seq<Row>, weaker: spec_fn(Row) -> bool, stronger: spec_fn(Row) -> bool)
    requires
        forall|r: Row| #[trigger] stronger(r) ==> weaker(r),
    ensures
        rows.filter(weaker).filter(stronger) == rows.filter(stronger),
    decreases rows.len(),
{
    reveal_with_fuel(Seq::<_>::filter, 1);
    if rows.len() > 0 {
        let init = rows.drop_last();
        let last = rows.last();
        lemma_filter_twice(init, weaker, stronger);
        let kept = init.filter(weaker);
        if weaker(last) {
            assert(kept.push(last).drop_last() =~= kept);
            assert(kept.push(last).last() == last);
        }
    } else {
        assert(rows.filter(weaker).len() == 0);
    }
}

/// Rows without a year and a month have no part in any month's value.
proof fn lemma_month_value_ignores_unaligned(
    rows: Seq<Row>,
    unaligned: spec_fn(Row) -> bool,
    y: i32,
    m: u32,
)
    requires
        forall|r: Row| #[trigger] unaligned(r) ==> r.year is None || r.month is None,
    ensures
        month_value(rows.filter(|r: Row| !unaligned(r)), y, m) == month_value(rows, y, m),
    decreases rows.len(),
{
    reveal_with_fuel(Seq::<_>::filter, 1);
    let keep = |r: Row| !unaligned(r);
    if rows.len() > 0 {
        let init = rows.drop_last();
        let last = rows.last();
        lemma_month_value_ignores_unaligned(init, unaligned, y, m);
        let kept = init.filter(keep);
        if keep(last) {
            assert(kept.push(last).drop_last() =~= kept);
            assert(kept.push(last).last() == last);
        }
    } else {
        assert(rows.filter(keep).len() == 0);
    }
}

/// Rows that cannot be aligned to a calendar month (no year or no month)
/// change no join: the series with such rows inserted anywhere have exactly
/// the joins of the series without them.
pub proof fn lemma_join_ignores_unaligned_rows(
    base: Seq<Row>,
    target: Seq<Row>,
    base_with: Seq<Row>,
    target_with: Seq<Row>,
    unaligned: spec_fn(Row) -> bool,
    joined: Seq<ComparedRow>,
)
    requires
        forall|r: Row| #[trigger] unaligned(r) ==> r.year is None || r.month is None,
        base == base_with.filter(|r: Row| !unaligned(r)),
        target == target_with.filter(|r: Row| !unaligned(r)),
    ensures
        is_monthly_join(base, target, joined) <==> is_monthly_join(base_with, target_with, joined),
{
    assert forall|y: i32, m: u32| #[trigger] month_value(base_with, y, m) == month_value(base, y, m) by {
        lemma_month_value_ignores_unaligned(base_with, unaligned, y, m);
    }
    assert forall|y: i32, m: u32| #[trigger] month_value(target_with, y, m) == month_value(target, y, m) by {
        lemma_month_value_ignores_unaligned(target_with, unaligned, y, m);
    }
    if is_monthly_join(base, target, joined) {
        assert forall|i: int| 0 <= i < joined.len() implies {
            &&& month_value(base_with, #[trigger] joined[i].year, joined[i].month) == Some(joined[i].base@)
            &&& month_value(target_with, joined[i].year, joined[i].month) == Some(joined[i].target@)
        } by {
            assert(month_value(base, joined[i].year, joined[i].month) == Some(joined[i].base@));
        }
        assert forall|y: i32, m: u32|
            (#[trigger] month_value(base_with, y, m)) is Some && (#[trigger] month_value(
                target_with,
                y,
                m,
            )) is Some implies exists|i: int|
            0 <= i < joined.len() && joined[i].year == y && joined[i].month == m by {
            assert(month_value(base, y, m) is Some && month_value(target, y, m) is Some);
        }
    }
    if is_monthly_join(base_with, target_with, joined) {
        assert forall|i: int| 0 <= i < joined.len() implies {
            &&& month_value(base, #[trigger] joined[i].year, joined[i].month) == Some(joined[i].base@)
            &&& month_value(target, joined[i].year, joined[i].month) == Some(joined[i].target@)
        } by {
            assert(month_value(base_with, joined[i].year, joined[i].month) == Some(joined[i].base@));
            assert(month_value(base_with, joined[i].year, joined[i].month) == month_value(base, joined[i].year, joined[i].month));
            assert(month_value(target_with, joined[i].year, joined[i].month) == month_value(target, joined[i].year, joined[i].month));
        }
        assert forall|y: i32, m: u32|
            (#[trigger] month_value(base, y, m)) is Some && (#[trigger] month_value(
                target,
                y,
                m,
            )) is Some implies exists|i: int|
            0 <= i < joined.len() && joined[i].year == y && joined[i].month == m by {
            assert(month_value(base_with, y, m) is Some && month_value(target_with, y, m) is Some);
        }
    }
}

/// Rows that `--since` drops change nothing: series with such rows (no
/// year, or a year before `since`) inserted anywhere are cut to the same
/// rows, so their numbers' precision and their join are the same as
/// without them.
pub proof fn lemma_since_ignores_dropped_rows(
    base: Seq<Row>,
    target: Seq<Row>,
    base_with: Seq<Row>,
    target_with: Seq<Row>,
    since: i32,
    dropped: spec_fn(Row) -> bool,
    one: Seq<ComparedRow>,
    other: Seq<ComparedRow>,
)
    requires
        forall|r: Row| #[trigger] dropped(r) ==> !shown_since(r, since),
        base == base_with.filter(|r: Row| !dropped(r)),
        target == target_with.filter(|r: Row| !dropped(r)),
        is_monthly_join(rows_since(base, Some(since)), rows_since(target, Some(since)), one),
        is_monthly_join(
            rows_since(base_with, Some(since)),
            rows_since(target_with, Some(since)),
            other,
        ),
    ensures
        rows_since(base_with, Some(since)) == rows_since(base, Some(since)),
        rows_since(target_with, Some(since)) == rows_since(target, Some(since)),
        one.len() == other.len(),
        forall|i: int|
            0 <= i < one.len() ==> {
                &&& #[trigger] one[i].year == other[i].year
                &&& one[i].month == other[i].month
                &&& one[i].base@ == other[i].base@
                &&& one[i].target@ == other[i].target@
            },
{
    let keep = |r: Row| !dropped(r);
    let shown = |r: Row| shown_since(r, since);
    lemma_filter_twice(base_with, keep, shown);
    lemma_filter_twice(target_with, keep, shown);
    assert(rows_since(base, Some(since)) == base.filter(shown));
    assert(rows_since(base_with, Some(since)) == base_with.filter(shown));
    lemma_join_is_unique(
        rows_since(base, Some(since)),
        rows_since(target, Some(since)),
        one,
        other,
    );
}

/// `part` occurs in `text` starting at index `at`.
pub open spec fn occurs_at(text: Seq<char>, part: Seq<char>, at: int) -> bool {
    &&& 0 <= at
    &&& at + part.len() <= text.len()
    &&& text.subrange(at, at + part.len()) == part
}

/// Every series is requested from the address of its own code, and cached
/// under that code: the cache key is the code in lowercase; an ONS address
/// holds `/timeseries/{cdid}/` with the CDID in lowercase, a DBnomics address
/// is `https://api.db.nomics.world/v22/series/ONS/LMS/{CDID}.M?observations=1`,
/// and the Bank of England address asks for `SeriesCodes={code}&`. Only Bank
/// Rate is cached as CSV.
pub proof fn lemma_request_names_its_series(kind: SeriesKind)
    ensures
        ({
            let (source, key, ext, url) = request_parts(kind);
            let code = series_code(kind);
            &&& key == ascii_lowercase(code)
            &&& (ext == seq!['c', 's', 'v']) == (kind == SeriesKind::Rate)
            &&& (ext == seq!['j', 's', 'o', 'n']) == (kind != SeriesKind::Rate)
            &&& match source {
                Source::Ons => exists|at: int|
                    occurs_at(url@, "/timeseries/"@ + key + seq!['/'], at),
                Source::Dbnomics => url@ == "https://api.db.nomics.world/v22/series/ONS/LMS/"@ + code
                    + ".M?observations=1"@,
                Source::BankOfEngland => exists|at: int|
                    occurs_at(url@, "SeriesCodes="@ + code + seq!['&'], at),
            }
        }),
{
    reveal_strlit("/timeseries/");
    reveal_strlit("https://api.db.nomics.world/v22/series/ONS/LMS/");
    reveal_strlit(".M?observations=1");
    reveal_strlit("SeriesCodes=");
    let (source, key, ext, url) = request_parts(kind);
    let code = series_code(kind);
    assert(key =~= ascii_lowercase(code));
    match kind {
        SeriesKind::Gdp => {
            reveal_strlit("https://www.ons.gov.uk/economy/grossdomesticproductgdp/timeseries/abmi/ukea/data");
            assert(url@.subrange(54, 71) =~= "/timeseries/"@ + key + seq!['/']);
            assert(occurs_at(url@, "/timeseries/"@ + key + seq!['/'], 54));
        },
        SeriesKind::Inflation => {
            reveal_strlit("https://www.ons.gov.uk/economy/inflationandpriceindices/timeseries/l55o/mm23/data");
            assert(url@.subrange(55, 72) =~= "/timeseries/"@ + key + seq!['/']);
            assert(occurs_at(url@, "/timeseries/"@ + key + seq!['/'], 55));
        },
        SeriesKind::Wages => {
            reveal_strlit("https://api.db.nomics.world/v22/series/ONS/LMS/KAB9.M?observations=1");
            assert(url@ =~= "https://api.db.nomics.world/v22/series/ONS/LMS/"@ + code + ".M?observations=1"@);
        },
        SeriesKind::Unemployment => {
            reveal_strlit("https://api.db.nomics.world/v22/series/ONS/LMS/MGSX.M?observations=1");
            assert(url@ =~= "https://api.db.nomics.world/v22/series/ONS/LMS/"@ + code + ".M?observations=1"@);
        },
        SeriesKind::Inactivity => {
            reveal_strlit("https://api.db.nomics.world/v22/series/ONS/LMS/LF2S.M?observations=1");
            assert(url@ =~= "https://api.db.nomics.world/v22/series/ONS/LMS/"@ + code + ".M?observations=1"@);
        },
        SeriesKind::Rate => {
            reveal_strlit("https://www.bankofengland.co.uk/boeapps/iadb/fromshowcolumns.asp?csv.x=yes&Datefrom=01/Jan/1975&Dateto=now&SeriesCodes=IUDBEDR&CSVF=TN&UsingCodes=Y&VPD=Y&VFD=N");
            assert(url@.subrange(107, 127) =~= "SeriesCodes="@ + code + seq!['&']);
            assert(occurs_at(url@, "SeriesCodes="@ + code + seq!['&'], 107));
        },
    }
}

/// No two series share an address or a cache file.
pub proof fn lemma_requests_are_distinct(a: SeriesKind, b: SeriesKind)
    requires
        a != b,
    ensures
        request_parts(a).3@ != request_parts(b).3@,
        request_parts(a).1 != request_parts(b).1,
{
    lemma_request_names_its_series(a);
    lemma_request_names_its_series(b);
    reveal_strlit("https://www.ons.gov.uk/economy/grossdomesticproductgdp/timeseries/abmi/ukea/data");
    reveal_strlit("https://www.ons.gov.uk/economy/inflationandpriceindices/timeseries/l55o/mm23/data");
    reveal_strlit("https://api.db.nomics.world/v22/series/ONS/LMS/KAB9.M?observations=1");
    reveal_strlit("https://api.db.nomics.world/v22/series/ONS/LMS/MGSX.M?observations=1");
    reveal_strlit("https://api.db.nomics.world/v22/series/ONS/LMS/LF2S.M?observations=1");
    reveal_strlit("https://www.bankofengland.co.uk/boeapps/iadb/fromshowcolumns.asp?csv.x=yes&Datefrom=01/Jan/1975&Dateto=now&SeriesCodes=IUDBEDR&CSVF=TN&UsingCodes=Y&VPD=Y&VFD=N");
    let ua = request_parts(a).3@;
    let ub = request_parts(b).3@;
    let ka = request_parts(a).1;
    let kb = request_parts(b).1;
    if ka.len() == kb.len() {
        assert(ka[0] != kb[0] || ka[1] != kb[1]);
    }
    if ua.len() == ub.len() {
        if ua.len() == 68 {
            assert(ua[47] != ub[47]);
        }
    }
}

/// `command` is the command of the series `kind`, given the options `args`.
pub open spec fn names_series(command: Command, kind: SeriesKind, args: SeriesArgs) -> bool {
    match command {
        Command::Gdp(a) => kind == SeriesKind::Gdp && a == args,
        Command::Inflation(a) => kind == SeriesKind::Inflation && a == args,
        Command::Rate(a) => kind == SeriesKind::Rate && a == args,
        Command::Wages(a) => kind == SeriesKind::Wages && a == args,
        Command::Unemployment(a) => kind == SeriesKind::Unemployment && a == args,
        Command::Inactivity(a) => kind == SeriesKind::Inactivity && a == args,
    }
}

/// A plan carries the command line's own options. Without `--compare-to`
/// the plan is the named series alone, with the given `--since` and format;
/// a single-series plan comes only that way. A comparison plan has the named
/// series as its base, the `--compare-to` series as its target, and the given
/// `--since` and format. A comparison is refused as a self-comparison exactly
/// when the two series are the same, and as quarterly exactly when they differ
/// and one of them is GDP.
pub proof fn lemma_plan_follows_command_line(cli: Cli, kind: SeriesKind, args: SeriesArgs)
    requires
        names_series(cli.command, kind, args),
    ensures
        args.compare_to is None ==> run_outcome(cli) == Ok::<Plan, RunError>(
            Plan::Single { kind, since: args.since, format: args.format },
        ),
        run_outcome(cli) matches Ok(Plan::Single { kind: k, since: s, format: f }) ==> {
            &&& k == kind
            &&& s == args.since
            &&& f == args.format
            &&& args.compare_to is None
        },
        run_outcome(cli) matches Ok(Plan::Compare { base, target, since, format }) ==> {
            &&& base == kind
            &&& args.compare_to == Some(target)
            &&& since == args.since
            &&& format == args.format
            &&& base != target
            &&& base != SeriesKind::Gdp
            &&& target != SeriesKind::Gdp
        },
        (run_outcome(cli) == Err::<Plan, RunError>(RunError::SameSeries)) <==> args.compare_to
            == Some(kind),
        (run_outcome(cli) == Err::<Plan, RunError>(RunError::QuarterlyGdp)) <==> (args.compare_to
            matches Some(t) && t != kind && (kind == SeriesKind::Gdp || t == SeriesKind::Gdp)),
{
}

/// The title of an ONS series carries its unit: it is the description's
/// title alone when `pre_unit` and `unit` are both empty, and otherwise the
/// title followed by ` (`, `pre_unit`, `unit` and `)`.
pub proof fn lemma_title_carries_unit(d: Description)
    ensures
        d.pre_unit@.len() == 0 && d.unit@.len() == 0 ==> ons_title(d) == d.title@,
        d.pre_unit@.len() > 0 || d.unit@.len() > 0 ==> ons_title(d) == d.title@ + seq![' ', '(']
            + d.pre_unit@ + d.unit@ + seq![')'],
        ons_title(d).subrange(0, d.title@.len() as int) == d.title@,
{
    let t = ons_title(d);
    assert(t.subrange(0, d.title@.len() as int) =~= d.title@);
    if d.pre_unit@.len() > 0 || d.unit@.len() > 0 {
        assert((d.pre_unit@ + d.unit@).len() > 0);
        assert(t =~= d.title@ + seq![' ', '('] + d.pre_unit@ + d.unit@ + seq![')']);
    }
}

/// A string has no more characters than its UTF-8 encoding has bytes.
proof fn lemma_chars_within_bytes(s: Seq<char>)
    ensures
        s.len() <= utf8_len(s),
    decreases s.len(),
{
    if s.len() > 0 {
        lemma_chars_within_bytes(s.drop_first());
        assert(vstd::utf8::encode_scalar(s[0] as u32).len() >= 1);
    }
}

/// Every base value counts toward the width of the base column.
proof fn lemma_widest_base_bounds(rows: Seq<ComparedRow>, i: int)
    requires
        0 <= i < rows.len(),
    ensures
        utf8_len(rows[i].base@) <= widest_base(rows),
    decreases rows.len(),
{
    if i < rows.len() - 1 {
        lemma_widest_base_bounds(rows.drop_last(), i);
        assert(rows.drop_last()[i] == rows[i]);
    }
}

/// The widest base value is one of the base values (0 for no rows).
proof fn lemma_widest_base_attained(rows: Seq<ComparedRow>)
    ensures
        rows.len() == 0 ==> widest_base(rows) == 0,
        rows.len() > 0 ==> exists|i: int|
            0 <= i < rows.len() && widest_base(rows) == utf8_len(#[trigger] rows[i].base@),
    decreases rows.len(),
{
    if rows.len() > 1 {
        let init = rows.drop_last();
        lemma_widest_base_attained(init);
        let i = choose|i: int| 0 <= i < init.len() && widest_base(init) == utf8_len(#[trigger] init[i].base@);
        assert(init[i] == rows[i]);
        let n = rows.len() - 1;
        assert(rows.last() == rows[n]);
        if widest_base(rows) == widest_base(init) {
            assert(widest_base(rows) == utf8_len(rows[i].base@));
        } else {
            assert(widest_base(rows) == utf8_len(rows[n].base@));
        }
    } else if rows.len() == 1 {
        assert(rows.last() == rows[0]);
        assert(widest_base(rows.drop_last()) == 0);
        assert(widest_base(rows) == utf8_len(rows[0].base@));
    }
}

/// The base column of a comparison is as wide as the widest of its values
/// and of its heading, in bytes: no value and not the heading is wider, and
/// one of them is exactly that wide.
pub proof fn lemma_base_width_bounds(rows: Seq<ComparedRow>, base_name: Seq<char>)
    ensures
        forall|i: int|
            0 <= i < rows.len() ==> utf8_len(#[trigger] rows[i].base@) <= base_width(rows, base_name),
        utf8_len(unicode_uppercase(base_name)) <= base_width(rows, base_name),
        base_width(rows, base_name) == utf8_len(unicode_uppercase(base_name)) || exists|i: int|
            0 <= i < rows.len() && base_width(rows, base_name) == utf8_len(#[trigger] rows[i].base@),
{
    assert forall|i: int| 0 <= i < rows.len() implies utf8_len(#[trigger] rows[i].base@) <= base_width(rows, base_name) by {
        lemma_widest_base_bounds(rows, i);
    }
    lemma_widest_base_attained(rows);
}

/// The columns of a comparison line up: on the heading and on the line of
/// every month of a four-digit year, the period column takes 7 characters,
/// then come two spaces, the base column padded to the base width, two more
/// spaces, and the target value (or the target's name in capitals), so the
/// target of every line starts at the same column as the target heading.
pub proof fn lemma_compare_columns_line_up(
    base_name: Seq<char>,
    target_name: Seq<char>,
    rows: Seq<ComparedRow>,
    i: int,
)
    requires
        0 <= i < rows.len(),
        1000 <= rows[i].year <= 9999,
        rows[i].month < 100,
    ensures
        ({
            let w = base_width(rows, base_name) as int;
            let line = compare_line(rows[i], w as nat);
            let heading = compare_heading(base_name, target_name, w as nat);
            &&& line.subrange(0, 7) == period_text(rows[i].year, rows[i].month)
            &&& line.subrange(7, 9) == seq![' ', ' ']
            &&& line.subrange(9, 9 + w) == pad_right(rows[i].base@, w as nat)
            &&& line.subrange(9 + w, 11 + w) == seq![' ', ' ']
            &&& line.subrange(11 + w, line.len() as int) == rows[i].target@
            &&& heading.subrange(9, 9 + w) == pad_right(unicode_uppercase(base_name), w as nat)
            &&& heading.subrange(9 + w, 11 + w) == seq![' ', ' ']
            &&& heading.subrange(11 + w, heading.len() as int) == unicode_uppercase(target_name)
        }),
{
    let r = rows[i];
    let w = base_width(rows, base_name);
    lemma_base_width_bounds(rows, base_name);
    assert(utf8_len(r.base@) <= w);
    lemma_chars_within_bytes(r.base@);
    lemma_chars_within_bytes(unicode_uppercase(base_name));
    lemma_period_fits_column(r.year, r.month);
    let period = period_text(r.year, r.month);
    assert(pad_right(period, 7) == period);
    assert(pad_right(r.base@, w).len() == w);
    assert(pad_right(unicode_uppercase(base_name), w).len() == w);
    assert(pad_right(seq!['P', 'E', 'R', 'I', 'O', 'D'], 7).len() == 7);
    let line = compare_line(r, w);
    assert(line.subrange(0, 7) =~= period);
    assert(line.subrange(7, 9) =~= seq![' ', ' ']);
    assert(line.subrange(9, 9 + w as int) =~= pad_right(r.base@, w));
    assert(line.subrange(9 + w as int, 11 + w as int) =~= seq![' ', ' ']);
    assert(line.subrange(11 + w as int, line.len() as int) =~= r.target@);
    let heading = compare_heading(base_name, target_name, w);
    assert(heading.subrange(9, 9 + w as int) =~= pad_right(unicode_uppercase(base_name), w));
    assert(heading.subrange(9 + w as int, 11 + w as int) =~= seq![' ', ' ']);
    assert(heading.subrange(11 + w as int, heading.len() as int) =~= unicode_uppercase(target_name));
}

/// A cached response stays fresh for exactly 24 hours: with the tool's
/// maximum age, a response is younger than the limit (and so is read from the
/// cache) exactly when less than 24 * 60 * 60 whole seconds have passed.
pub proof fn lemma_cache_keeps_a_day(secs: u64, nanos: u32)
    requires
        nanos < 1_000_000_000,
    ensures
        age_nanos(secs, nanos) < age_nanos(MAX_AGE_SECS, 0) <==> secs < 24 * 60 * 60,
{
    assert(age_nanos(secs, nanos) == secs * 1_000_000_000 + nanos);
    if secs < 24 * 60 * 60 {
        assert(secs * 1_000_000_000 + nanos < (secs + 1) * 1_000_000_000) by (nonlinear_arith)
            requires nanos < 1_000_000_000;
        assert((secs + 1) * 1_000_000_000 <= 86400 * 1_000_000_000) by (nonlinear_arith)
            requires secs < 86400;
    } else {
        assert(secs * 1_000_000_000 >= 86400 * 1_000_000_000) by (nonlinear_arith)
            requires secs >= 86400;
    }
}

/// The bytes of a number written in decimal: ASCII digits only, worth the
/// number.
proof fn lemma_decimal_bytes(n: nat)
    ensures
        vstd::utf8::is_ascii_chars(decimal(n)),
        decimal(n).len() >= 1,
        all_digits(vstd::utf8::encode_utf8(decimal(n))),
        digits_value(vstd::utf8::encode_utf8(decimal(n))) == n,
    decreases n,
{
    let s = decimal(n);
    let d = n % 10;
    assert(((48 + d) as char) as u8 == 48 + d) by {
        assert(d < 10);
    }
    if n < 10 {
        assert(vstd::utf8::is_ascii_chars(s));
        vstd::utf8::is_ascii_chars_encode_utf8(s);
        let b = vstd::utf8::encode_utf8(s);
        assert(b[0] == s[0] as u8);
        assert(b.drop_last().len() == 0);
        assert(b.last() == 48 + d);
        assert(digits_value(b.drop_last()) == 0);
        assert(digits_value(b) == digits_value(b.drop_last()) * 10 + (b.last() - 48) as nat);
    } else {
        lemma_decimal_bytes(n / 10);
        let p = decimal(n / 10);
        assert(s == p.push(digit_char(d)));
        assert(vstd::utf8::is_ascii_chars(s));
        vstd::utf8::is_ascii_chars_encode_utf8(s);
        vstd::utf8::is_ascii_chars_encode_utf8(p);
        let b = vstd::utf8::encode_utf8(s);
        let bp = vstd::utf8::encode_utf8(p);
        assert(b.drop_last() =~= bp) by {
            assert forall|i: int| 0 <= i < bp.len() implies b.drop_last()[i] == bp[i] by {
                assert(b[i] == s[i] as u8);
                assert(bp[i] == p[i] as u8);
                assert(s[i] == p[i]);
            }
        }
        assert(b.last() == s[s.len() - 1] as u8);
        assert(all_digits(b)) by {
            assert forall|i: int| 0 <= i < b.len() implies crate::text::is_digit(#[trigger] b[i]) by {
                if i < b.len() - 1 {
                    assert(b[i] == b.drop_last()[i]);
                }
            }
        }
        assert(n == (n / 10) * 10 + d);
        assert(b.last() == 48 + d);
        assert(digits_value(b.drop_last()) == n / 10);
        assert(digits_value(b) == digits_value(b.drop_last()) * 10 + (b.last() - 48) as nat);
    }
}

/// A year written as the tool writes it is read back as that year, and a
/// month number written on two digits is read back as that number: reading
/// undoes writing.
pub proof fn lemma_numbers_read_back(year: i32, month: u32)
    requires
        month < 100,
    ensures
        parsed_i32(vstd::utf8::encode_utf8(signed_decimal(year as int))) == Some(year),
        parsed_u32(vstd::utf8::encode_utf8(two_digit_decimal(month as nat))) == Some(month),
{
    let y = year as int;
    if y < 0 {
        let m = (-y) as nat;
        lemma_decimal_bytes(m);
        let s = signed_decimal(y);
        let t = decimal(m);
        assert(s == seq!['-'] + t);
        assert(vstd::utf8::is_ascii_chars(s));
        vstd::utf8::is_ascii_chars_encode_utf8(s);
        vstd::utf8::is_ascii_chars_encode_utf8(t);
        let b = vstd::utf8::encode_utf8(s);
        let bt = vstd::utf8::encode_utf8(t);
        assert(b[0] == 45u8);
        assert(b.drop_first() =~= bt) by {
            assert forall|i: int| 0 <= i < bt.len() implies b.drop_first()[i] == bt[i] by {
                assert(b[i + 1] == s[i + 1] as u8);
                assert(bt[i] == t[i] as u8);
            }
        }
        assert(decimal_integer(b, true) == Some(y));
    } else {
        lemma_decimal_bytes(y as nat);
        let b = vstd::utf8::encode_utf8(decimal(y as nat));
        vstd::utf8::is_ascii_chars_encode_utf8(decimal(y as nat));
        assert(b[0] == decimal(y as nat)[0] as u8);
        assert(b[0] != 43u8 && b[0] != 45u8) by {
            assert(crate::text::is_digit(b[0]));
        }
        assert(decimal_integer(b, true) == Some(y));
    }
    let mn = month as nat;
    lemma_decimal_bytes(mn);
    if mn < 10 {
        let s = two_digit_decimal(mn);
        let t = decimal(mn);
        assert(s == seq!['0'] + t);
        assert(vstd::utf8::is_ascii_chars(s));
        vstd::utf8::is_ascii_chars_encode_utf8(s);
        vstd::utf8::is_ascii_chars_encode_utf8(t);
        let b = vstd::utf8::encode_utf8(s);
        let bt = vstd::utf8::encode_utf8(t);
        assert(b.len() == 2);
        assert(b[0] == 48u8);
        assert(b[1] == bt[0]) by {
            assert(b[1] == s[1] as u8);
            assert(bt[0] == t[0] as u8);
        }
        assert(b.drop_last() =~= seq![48u8]);
        assert(digits_value(b.drop_last()) == 0) by {
            assert(digits_value(seq![48u8].drop_last()) == 0);
        }
        assert(all_digits(b));
        assert(bt.len() == 1 && bt.last() == bt[0]);
        assert(digits_value(bt) == digits_value(bt.drop_last()) * 10 + (bt.last() - 48) as nat);
        assert(digits_value(bt.drop_last()) == 0);
        assert(b.last() == b[1]);
        assert(digits_value(b) == digits_value(b.drop_last()) * 10 + (b.last() - 48) as nat);
        assert(digits_value(b) == mn);
        assert(decimal_integer(b, false) == Some(mn as int));
    } else {
        let b = vstd::utf8::encode_utf8(two_digit_decimal(mn));
        vstd::utf8::is_ascii_chars_encode_utf8(decimal(mn));
        assert(b[0] == decimal(mn)[0] as u8);
        assert(b[0] != 43u8) by {
            assert(crate::text::is_digit(b[0]));
        }
        assert(decimal_integer(b, false) == Some(mn as int));
    }
}

} // verus!
