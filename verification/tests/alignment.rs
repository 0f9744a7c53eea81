use econ_cli::align::{align_monthly, ComparedRow};
use econ_cli::series::{retain_since, Row};

fn row(year: i32, month: Option<u32>, value: &str) -> Row {
    Row {
        period: String::new(),
        year: Some(year),
        month,
        value: value.to_string(),
        num: value.parse::<f64>().ok().map(|n| n.to_string()),
    }
}

#[test]
fn aligns_on_shared_months_and_collapses_dailies() {
    let base = vec![
        row(2026, Some(1), "740"),
        row(2026, Some(2), "747"),
        row(2026, Some(3), "754"),
    ];
    // daily-style target: two observations in Feb -> last one wins; no March
    let target = vec![
        row(2026, Some(2), "4.0"),
        row(2026, Some(2), "3.75"),
        row(2026, Some(1), "4.0"),
        row(2026, None, "9.9"), // not monthly-alignable -> ignored
    ];
    let joined = align_monthly(&base, &target);
    assert_eq!(joined.len(), 2);
    assert_eq!(joined[0].period(), "2026-01");
    assert_eq!(joined[1].period(), "2026-02");
    assert_eq!(joined[1].base, "747");
    assert_eq!(joined[1].target, "3.75");
}

#[test]
fn join_is_sorted_by_month_whatever_the_input_order() {
    let base = vec![
        row(2026, Some(3), "c"),
        row(2025, Some(12), "b"),
        row(2026, Some(1), "a"),
        row(2025, Some(12), "b2"),
    ];
    let target = vec![row(2026, Some(1), "x"), row(2025, Some(12), "y"), row(2026, Some(3), "z")];
    let joined = align_monthly(&base, &target);
    let periods: Vec<String> = joined.iter().map(|r| r.period()).collect();
    assert_eq!(periods, vec!["2025-12", "2026-01", "2026-03"]);
    assert_eq!(joined[0].base, "b2");
    assert_eq!(joined[0].target, "y");
}

#[test]
fn join_swaps_with_its_arguments() {
    let base = vec![row(2026, Some(1), "1"), row(2026, Some(2), "2"), row(2026, Some(4), "4")];
    let target = vec![row(2026, Some(2), "b"), row(2026, Some(4), "d"), row(2026, Some(5), "e")];
    let one = align_monthly(&base, &target);
    let other = align_monthly(&target, &base);
    assert_eq!(one.len(), other.len());
    for (a, b) in one.iter().zip(other.iter()) {
        assert_eq!((a.year, a.month), (b.year, b.month));
        assert_eq!(a.base, b.target);
        assert_eq!(a.target, b.base);
    }
}

#[test]
fn join_of_series_cut_by_since_starts_at_since() {
    let mut base = vec![row(2024, Some(12), "1"), row(2025, Some(1), "2"), row(2026, Some(1), "3")];
    let mut target = vec![row(2024, Some(12), "a"), row(2025, Some(1), "b"), row(2026, Some(1), "c")];
    retain_since(&mut base, Some(2025));
    retain_since(&mut target, Some(2025));
    let joined = align_monthly(&base, &target);
    assert_eq!(joined.len(), 2);
    assert!(joined.iter().all(|r| r.year >= 2025));
}

#[test]
fn join_of_disjoint_or_empty_series_is_empty() {
    let base = vec![row(2026, Some(1), "1")];
    let target = vec![row(2026, Some(2), "2")];
    assert!(align_monthly(&base, &target).is_empty());
    assert!(align_monthly(&Vec::new(), &target).is_empty());
}

#[test]
fn compared_period_is_year_dash_two_digit_month() {
    let r = ComparedRow { year: 2026, month: 11, base: String::new(), target: String::new() };
    assert_eq!(r.period(), "2026-11");
    let r = ComparedRow { year: -5, month: 123, base: String::new(), target: String::new() };
    assert_eq!(r.period(), "-5-123");
    let r = ComparedRow { year: 0, month: 0, base: String::new(), target: String::new() };
    assert_eq!(r.period(), "0-00");
}

#[test]
fn since_keeps_rows_from_that_year_onwards() {
    let mut rows = vec![row(2019, Some(1), "1"), row(2020, Some(1), "2"), row(2021, None, "3")];
    rows.push(Row { period: String::new(), year: None, month: None, value: "4".into(), num: None });
    retain_since(&mut rows, Some(2020));
    let values: Vec<&str> = rows.iter().map(|r| r.value.as_str()).collect();
    assert_eq!(values, vec!["2", "3"]);
    retain_since(&mut rows, None);
    assert_eq!(rows.len(), 2);
}

#[test]
fn join_depends_only_on_the_series() {
    let base = vec![row(2026, Some(2), "2"), row(2026, Some(1), "1")];
    let target = vec![row(2026, Some(1), "a"), row(2026, Some(2), "b")];
    let one = align_monthly(&base, &target);
    let other = align_monthly(&base, &target);
    let key = |r: &ComparedRow| (r.year, r.month, r.base.clone(), r.target.clone());
    assert_eq!(one.iter().map(key).collect::<Vec<_>>(), other.iter().map(key).collect::<Vec<_>>());
    assert_eq!(one[0].period().len(), 7);
}

#[test]
fn rows_dropped_by_since_change_nothing() {
    let mut base = vec![row(2025, Some(1), "2"), row(2026, Some(1), "3")];
    let mut base_with = vec![row(2019, Some(1), "9"), row(2025, Some(1), "2"), row(2020, Some(1), "8"), row(2026, Some(1), "3")];
    let mut target = vec![row(2025, Some(1), "b"), row(2026, Some(1), "c")];
    let mut target_with = vec![row(2025, Some(1), "b"), row(2024, Some(1), "z"), row(2026, Some(1), "c")];
    for rows in [&mut base, &mut base_with, &mut target, &mut target_with] {
        retain_since(rows, Some(2025));
    }
    let one = align_monthly(&base, &target);
    let other = align_monthly(&base_with, &target_with);
    let key = |r: &ComparedRow| (r.year, r.month, r.base.clone(), r.target.clone());
    assert_eq!(one.iter().map(key).collect::<Vec<_>>(), other.iter().map(key).collect::<Vec<_>>());
}

#[test]
fn rows_without_a_month_change_no_join() {
    let base = vec![row(2026, Some(1), "1")];
    let base_with = vec![row(2026, None, "x"), row(2026, Some(1), "1"), row(2026, None, "y")];
    let target = vec![row(2026, Some(1), "a")];
    let one = align_monthly(&base, &target);
    let other = align_monthly(&base_with, &target);
    assert_eq!(one.len(), other.len());
    assert_eq!((one[0].base.as_str(), other[0].base.as_str()), ("1", "1"));
}
