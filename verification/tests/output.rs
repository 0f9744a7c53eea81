use econ_cli::align::ComparedRow;
use econ_cli::cli::Format;
use econ_cli::render::{
    compare_csv_table, compare_output, compare_table_lines, csv_table, max_decimals, series_output,
    table_lines, Output,
};
use econ_cli::series::SeriesKind;
use econ_cli::series::Row;

fn row(period: &str, value: &str) -> Row {
    Row {
        period: period.to_string(),
        year: None,
        month: None,
        value: value.to_string(),
        num: None,
    }
}

fn rendered(values: &[f64]) -> Vec<String> {
    values.iter().map(|v| v.to_string()).collect()
}

#[test]
fn formats_series_to_uniform_precision() {
    // mixed precision -> pad to the widest
    assert_eq!(max_decimals(&rendered(&[4.9, 5.0, 4.75])), 2);
    // all integers -> stay integer
    assert_eq!(max_decimals(&rendered(&[743.0, 754.0])), 0);
    // empty -> 0
    assert_eq!(max_decimals(&rendered(&[])), 0);

    // The tool renders each number to this precision with std's `{:.N}`
    // float formatting (outside the library, which holds no floats); this
    // check exercises that formatting at the precision the library chose.
    let nums = rendered(&[4.9, 5.0]);
    let decimals = max_decimals(&nums);
    let shown: Vec<String> = nums
        .iter()
        .map(|n| format!("{:.1$}", n.parse::<f64>().unwrap(), decimals))
        .collect();
    assert_eq!(shown[1], "5.0");
}

#[test]
fn precision_is_capped_at_four_places() {
    assert_eq!(max_decimals(&vec!["0.123456".to_string(), "1".to_string()]), 4);
    assert_eq!(max_decimals(&vec!["1.2.3".to_string()]), 3);
}

#[test]
fn table_pads_periods_to_a_column() {
    let rows = vec![row("2026 JAN", "3.2"), row("2026 FEB", "3.2")];
    let lines = table_lines("CPIH ANNUAL RATE 00: ALL ITEMS 2015=100 (%)", &rows);
    assert_eq!(
        lines,
        vec![
            "CPIH ANNUAL RATE 00: ALL ITEMS 2015=100 (%)",
            "",
            "PERIOD    VALUE",
            "2026 JAN  3.2",
            "2026 FEB  3.2",
        ]
    );
    let short = table_lines("t", &vec![row("2025", "1")]);
    assert_eq!(short[2], "PERIOD  VALUE");
    assert_eq!(short[3], "2025    1");
}

#[test]
fn compare_table_has_capitalised_headings() {
    let rows = vec![
        ComparedRow { year: 2026, month: 1, base: "743".into(), target: "3.2".into() },
        ComparedRow { year: 2026, month: 2, base: "747".into(), target: "3.2".into() },
    ];
    let lines = compare_table_lines("wages", "inflation", &rows);
    assert_eq!(
        lines,
        vec![
            "wages vs inflation",
            "",
            "PERIOD   WAGES  INFLATION",
            "2026-01  743    3.2",
            "2026-02  747    3.2",
        ]
    );
}

#[test]
fn csv_table_writes_header_and_rows() {
    let rows = vec![row("2025 Q1", "703178"), row("2025 Q2", "705,1"), row("say \"x\"", "")];
    let bytes = csv_table(&rows);
    assert_eq!(
        String::from_utf8(bytes).unwrap(),
        "period,value\n2025 Q1,703178\n2025 Q2,\"705,1\"\n\"say \"\"x\"\"\",\n"
    );
}

#[test]
fn compare_csv_names_both_series() {
    let rows = vec![ComparedRow { year: 2026, month: 1, base: "743".into(), target: "3.2".into() }];
    let bytes = compare_csv_table("wages", "inflation", &rows);
    assert_eq!(String::from_utf8(bytes).unwrap(), "period,wages,inflation\n2026-01,743,3.2\n");
}

#[test]
fn output_follows_the_format() {
    let rows = vec![row("2025 Q1", "703178")];
    match series_output(Format::Csv, "GDP", &rows) {
        Output::Bytes(b) => assert_eq!(String::from_utf8(b).unwrap(), "period,value\n2025 Q1,703178\n"),
        Output::Lines(_) => panic!("csv expected"),
    }
    match series_output(Format::Table, "GDP", &rows) {
        Output::Lines(l) => assert_eq!(l, vec!["GDP", "", "PERIOD   VALUE", "2025 Q1  703178"]),
        Output::Bytes(_) => panic!("table expected"),
    }
    let joined = vec![ComparedRow { year: 2026, month: 1, base: "743".into(), target: "3.2".into() }];
    match compare_output(Format::Table, SeriesKind::Wages, SeriesKind::Inflation, &joined) {
        Output::Lines(l) => assert_eq!(l[2], "PERIOD   WAGES  INFLATION"),
        Output::Bytes(_) => panic!("table expected"),
    }
    match compare_output(Format::Csv, SeriesKind::Wages, SeriesKind::Inflation, &joined) {
        Output::Bytes(b) => assert_eq!(String::from_utf8(b).unwrap(), "period,wages,inflation\n2026-01,743,3.2\n"),
        Output::Lines(_) => panic!("csv expected"),
    }
}
