//! Joining two series on calendar months.

use vstd::prelude::*;

use std::collections::BTreeMap;
use vstd::std_specs::iter::IteratorSpec;

use crate::month_order::{lemma_increasing_months, lemma_month_keys_ordered, month_keys_ordered};
use crate::series::Row;
use crate::text::{
    push_signed_decimal, push_two_digit_decimal, signed_decimal, two_digit_decimal,
};

verus! {

broadcast use vstd::std_specs::btree::group_btree_axioms;

/// One month present in both series.
pub struct ComparedRow {
    pub year: i32,
    pub month: u32,
    pub base: String,
    pub target: String,
}

/// The period of a compared row: the year, a `-`, and the month on two
/// digits ("2026-01").
pub open spec fn period_text(year: i32, month: u32) -> Seq<char> {
    signed_decimal(year as int) + seq!['-'] + two_digit_decimal(month as nat)
}

impl ComparedRow {
    /// The row's month written as `{year}-{month:02}`.
    pub fn period(&self) -> (r: String)
        ensures
            r@ == period_text(self.year, self.month),
    {
        let mut out = String::new();
        push_signed_decimal(&mut out, self.year);
        proof { reveal_strlit("-"); }
        out.append("-");
        push_two_digit_decimal(&mut out, self.month);
        assert(out@ =~= period_text(self.year, self.month));
        out
    }
}

/// Strict order on (year, month): by year, then by month.
pub open spec fn month_before(a: (i32, u32), b: (i32, u32)) -> bool {
    a.0 < b.0 || (a.0 == b.0 && a.1 < b.1)
}

/// The value of the last row of `rows` that falls in month `m` of year `y`,
/// if any does: multiple observations in one month collapse to the last one.
pub open spec fn month_value(rows: Seq<Row>, y: i32, m: u32) -> Option<Seq<char>>
    decreases rows.len(),
{
    if rows.len() == 0 {
        None
    } else if rows.last().year == Some(y) && rows.last().month == Some(m) {
        Some(rows.last().value@)
    } else {
        month_value(rows.drop_last(), y, m)
    }
}

/// The (year, month) of a compared row.
pub open spec fn compared_key(r: ComparedRow) -> (i32, u32) {
    (r.year, r.month)
}

/// `out` is the join of `base` and `target` on calendar months: in
/// increasing month order, one row for each month in which both series have
/// an observation, holding the last observation of that month from each.
pub open spec fn is_monthly_join(base: Seq<Row>, target: Seq<Row>, out: Seq<ComparedRow>) -> bool {
    &&& forall|i: int, j: int|
        0 <= i < j < out.len() ==> month_before(
            #[trigger] compared_key(out[i]),
            #[trigger] compared_key(out[j]),
        )
    &&& forall|i: int|
        0 <= i < out.len() ==> {
            &&& month_value(base, #[trigger] out[i].year, out[i].month) == Some(out[i].base@)
            &&& month_value(target, out[i].year, out[i].month) == Some(out[i].target@)
        }
    &&& forall|y: i32, m: u32|
        (#[trigger] month_value(base, y, m)) is Some && (#[trigger] month_value(target, y, m)) is Some
            ==> exists|i: int| 0 <= i < out.len() && out[i].year == y && out[i].month == m
}

/// `months` maps exactly the months in which `rows` has observations, each
/// to its last value.
spec fn is_month_map(rows: Seq<Row>, months: Map<(i32, u32), String>) -> bool {
    &&& forall|y: i32, m: u32|
        #[trigger] months.contains_key((y, m)) <==> month_value(rows, y, m) is Some
    &&& forall|k: (i32, u32)|
        #[trigger] months.contains_key(k) ==> month_value(rows, k.0, k.1) == Some(months[k]@)
}

/// Appending one row changes the month value of that row's month only.
proof fn lemma_month_value_push(rows: Seq<Row>, k: int, y: i32, m: u32)
    requires
        0 <= k < rows.len(),
    ensures
        month_value(rows.take(k + 1), y, m) == if rows[k].year == Some(y) && rows[k].month == Some(
            m,
        ) {
            Some(rows[k].value@)
        } else {
            month_value(rows.take(k), y, m)
        },
{
    assert(rows.take(k + 1).drop_last() =~= rows.take(k));
    assert(rows.take(k + 1).last() == rows[k]);
}

/// The months of `rows`, each with its last value.
fn months_of(rows: &Vec<Row>) -> (r: BTreeMap<(i32, u32), String>)
    ensures
        is_month_map(rows@, r@),
{
    proof {
        lemma_month_keys_ordered();
    }
    let mut months: BTreeMap<(i32, u32), String> = BTreeMap::new();
    let mut k: usize = 0;
    assert forall|y: i32, m: u32| (#[trigger] month_value(rows@.take(0), y, m)) is None by {
        assert(rows@.take(0).len() == 0);
    }
    while k < rows.len()
        invariant
            k <= rows@.len(),
            month_keys_ordered(),
            is_month_map(rows@.take(k as int), months@),
        decreases rows@.len() - k,
    {
        proof {
            lemma_month_keys_ordered();
            assert forall|y: i32, m: u32| true implies #[trigger] month_value(
                rows@.take(k + 1),
                y,
                m,
            ) == if rows@[k as int].year == Some(y) && rows@[k as int].month == Some(m) {
                Some(rows@[k as int].value@)
            } else {
                month_value(rows@.take(k as int), y, m)
            } by {
                lemma_month_value_push(rows@, k as int, y, m);
            }
        }
        let row = &rows[k];
        if let (Some(y), Some(m)) = (row.year, row.month) {
            months.insert((y, m), row.value.clone());
        }
        proof {
            assert forall|key: (i32, u32)| #[trigger] months@.contains_key(key) implies month_value(
                rows@.take(k + 1),
                key.0,
                key.1,
            ) == Some(months@[key]@) by {
                assert(month_value(rows@.take(k + 1), key.0, key.1) == if rows@[k as int].year
                    == Some(key.0) && rows@[k as int].month == Some(key.1) {
                    Some(rows@[k as int].value@)
                } else {
                    month_value(rows@.take(k as int), key.0, key.1)
                });
            }
            assert forall|y: i32, m: u32|
                #[trigger] months@.contains_key((y, m)) <==> month_value(
                    rows@.take(k + 1),
                    y,
                    m,
                ) is Some by {
                assert(month_value(rows@.take(k + 1), y, m) == if rows@[k as int].year == Some(y)
                    && rows@[k as int].month == Some(m) {
                    Some(rows@[k as int].value@)
                } else {
                    month_value(rows@.take(k as int), y, m)
                });
            }
        }
        k = k + 1;
    }
    assert(rows@.take(rows@.len() as int) =~= rows@);
    months
}

/// Joins two series on calendar month, keeping months present in both.
/// Multiple observations in one month (daily data) collapse to the last one;
/// rows without a year and a month take no part.
pub fn align_monthly(base: &Vec<Row>, target: &Vec<Row>) -> (r: Vec<ComparedRow>)
    ensures
        is_monthly_join(base@, target@, r@),
{
    proof {
        lemma_month_keys_ordered();
    }
    let target_by_month = months_of(target);
    let base_by_month = months_of(base);
    let entries = base_by_month.iter();
    let ghost all = entries.remaining();
    let ghost keys = all.map_values(|p: (&(i32, u32), &String)| *p.0);
    assert(vstd::std_specs::btree::increasing_seq(keys));
    assert(forall|i: int|
        0 <= i < all.len() ==> base_by_month@.contains_key(*all[i].0) && base_by_month@[*all[i].0]
            == *all[i].1);
    assert(forall|k: (i32, u32)|
        #[trigger] base_by_month@.contains_key(k) ==> all.contains((&k, &base_by_month@[k])));
    let mut out: Vec<ComparedRow> = Vec::new();
    let ghost mut done: int = 0;
    for entry in it: entries
        invariant
            done == it.index(),
            0 <= done <= all.len(),
            month_keys_ordered(),
            is_month_map(base@, base_by_month@),
            is_month_map(target@, target_by_month@),
            it.seq() == all,
            keys == all.map_values(|p: (&(i32, u32), &String)| *p.0),
            vstd::std_specs::btree::increasing_seq(keys),
            forall|i: int|
                0 <= i < all.len() ==> base_by_month@.contains_key(*all[i].0)
                    && base_by_month@[*all[i].0] == *all[i].1,
            forall|a: int, b: int|
                0 <= a < b < out@.len() ==> month_before(
                    #[trigger] compared_key(out@[a]),
                    #[trigger] compared_key(out@[b]),
                ),
            forall|a: int|
                0 <= a < out@.len() ==> exists|p: int|
                    0 <= p < done && keys[p] == #[trigger] compared_key(out@[a]),
            forall|a: int|
                0 <= a < out@.len() ==> {
                    &&& month_value(base@, #[trigger] out@[a].year, out@[a].month) == Some(
                        out@[a].base@,
                    )
                    &&& month_value(target@, out@[a].year, out@[a].month) == Some(out@[a].target@)
                },
            forall|p: int|
                0 <= p < done && target_by_month@.contains_key(#[trigger] keys[p])
                    ==> exists|a: int| 0 <= a < out@.len() && compared_key(out@[a]) == keys[p],
    {
        let (key, value) = entry;
        let ghost n = done;
        let ghost prev = out@;
        proof {
            assert(keys[n] == *key);
            assert(base_by_month@.contains_key(*key) && base_by_month@[*key] == *value);
        }
        let (y, m) = *key;
        match target_by_month.get(&(y, m)) {
            Some(t) => {
                let row = ComparedRow { year: y, month: m, base: value.clone(), target: t.clone() };
                out.push(row);
                proof {
                    assert forall|a: int, b: int|
                        0 <= a < b < out@.len() implies month_before(
                        #[trigger] compared_key(out@[a]),
                        #[trigger] compared_key(out@[b]),
                    ) by {
                        if b == out@.len() - 1 {
                            let p = choose|p: int|
                                0 <= p < n && keys[p] == #[trigger] compared_key(prev[a]);
                            lemma_increasing_months(keys, p, n);
                        } else {
                            assert(month_before(compared_key(prev[a]), compared_key(prev[b])));
                        }
                    }
                    assert forall|a: int|
                        0 <= a < out@.len() implies exists|p: int|
                        0 <= p < n + 1 && keys[p] == #[trigger] compared_key(out@[a]) by {
                        if a == out@.len() - 1 {
                            assert(keys[n] == compared_key(out@[a]));
                        } else {
                            assert(out@[a] == prev[a]);
                            let p = choose|p: int|
                                0 <= p < n && keys[p] == #[trigger] compared_key(prev[a]);
                            assert(0 <= p < n + 1 && keys[p] == compared_key(out@[a]));
                        }
                    }
                    assert forall|a: int| 0 <= a < out@.len() implies {
                        &&& month_value(base@, #[trigger] out@[a].year, out@[a].month) == Some(
                            out@[a].base@,
                        )
                        &&& month_value(target@, out@[a].year, out@[a].month) == Some(
                            out@[a].target@,
                        )
                    } by {
                        if a == out@.len() - 1 {
                            assert(base_by_month@.contains_key((y, m)));
                            assert(target_by_month@.contains_key((y, m)));
                        } else {
                            assert(out@[a] == prev[a]);
                        }
                    }
                    assert forall|p: int|
                        0 <= p < n + 1 && target_by_month@.contains_key(
                            #[trigger] keys[p],
                        ) implies exists|a: int|
                        0 <= a < out@.len() && compared_key(out@[a]) == keys[p] by {
                        if p == n {
                            assert(compared_key(out@[out@.len() - 1]) == keys[p]);
                        } else {
                            let a = choose|a: int|
                                0 <= a < prev.len() && compared_key(prev[a]) == keys[p];
                            assert(out@[a] == prev[a]);
                        }
                    }
                }
            },
            None => {
                proof {
                    assert forall|a: int|
                        0 <= a < out@.len() implies exists|p: int|
                        0 <= p < n + 1 && keys[p] == #[trigger] compared_key(out@[a]) by {
                        let p = choose|p: int| 0 <= p < n && keys[p] == #[trigger] compared_key(out@[a]);
                        assert(0 <= p < n + 1 && keys[p] == compared_key(out@[a]));
                    }
                }
            },
        }
        proof {
            done = done + 1;
        }
    }
    proof {
        assert forall|y: i32, m: u32|
            (#[trigger] month_value(base@, y, m)) is Some && (#[trigger] month_value(
                target@,
                y,
                m,
            )) is Some implies exists|a: int|
            0 <= a < out@.len() && out@[a].year == y && out@[a].month == m by {
            assert(base_by_month@.contains_key((y, m)));
            assert(target_by_month@.contains_key((y, m)));
            assert(all.contains((&(y, m), &base_by_month@[(y, m)])));
            let p = choose|p: int| 0 <= p < all.len() && all[p] == (&(y, m), &base_by_month@[(y, m)]);
            assert(keys[p] == (y, m));
            let a = choose|a: int| 0 <= a < out@.len() && compared_key(out@[a]) == keys[p];
        }
    }
    out
}

} // verus!
