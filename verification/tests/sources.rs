use econ_cli::boe::BoeRow;
use econ_cli::cache::{file_name, is_stale, MAX_AGE_SECS};
use econ_cli::cli::{run, run_compare, Cli, Command, Format, Plan, RunError, SeriesArgs};
use econ_cli::dates::{month_number, CalendarDate};
use econ_cli::dbnomics::{DbnomicsResponse, SeriesDoc, SeriesPage, Value};
use econ_cli::ons::{Description, Observation, SeriesResponse};
use econ_cli::series::{
    series_from_dbnomics, series_from_ons, series_from_rate, SeriesError, SeriesKind,
    series_request, ons_row, rate_row, Source, GDP_URL, RATE_URL,
};

#[test]
fn parses_ons_month_names() {
    assert_eq!(month_number("January"), Some(1));
    assert_eq!(month_number("May"), Some(5));
    assert_eq!(month_number(""), None);
}

#[test]
fn month_names_are_read_short_or_long_in_any_case() {
    assert_eq!(month_number("Dec"), Some(12));
    assert_eq!(month_number("SEPTEMBER"), Some(9));
    assert_eq!(month_number("Smarch"), None);
}

fn obs(date: &str, value: &str, year: &str, month: &str, quarter: &str) -> Observation {
    Observation {
        date: date.into(),
        value: value.into(),
        year: year.into(),
        month: month.into(),
        quarter: quarter.into(),
    }
}

fn description(title: &str, cdid: &str, unit: &str, pre_unit: &str) -> Description {
    Description {
        title: title.into(),
        cdid: cdid.into(),
        dataset_id: "mm23".into(),
        unit: unit.into(),
        pre_unit: pre_unit.into(),
        release_date: String::new(),
        next_release: String::new(),
    }
}

#[test]
fn ons_observations_follow_the_native_frequency() {
    let quarterly = SeriesResponse {
        description: description("GDP", "ABMI", "m", "£"),
        years: vec![obs("1948", "1", "1948", "", "")],
        quarters: vec![obs("2026 Q1", "709598", "2026", "", "Q1")],
        months: vec![],
    };
    assert_eq!(quarterly.observations().len(), 1);
    assert_eq!(quarterly.observations()[0].quarter, "Q1");
    assert_eq!(quarterly.observations()[0].year(), Some(2026));

    let annual = SeriesResponse {
        description: description("GDP", "ABMI", "", ""),
        years: vec![obs("1948", "1", "1948", "", "")],
        quarters: vec![],
        months: vec![],
    };
    assert_eq!(annual.observations()[0].date, "1948");
}

#[test]
fn ons_year_reads_as_an_integer_or_not_at_all() {
    assert_eq!(obs("", "", "+2026", "", "").year(), Some(2026));
    assert_eq!(obs("", "", "-7", "", "").year(), Some(-7));
    assert_eq!(obs("", "", "2147483647", "", "").year(), Some(i32::MAX));
    assert_eq!(obs("", "", "-2147483648", "", "").year(), Some(i32::MIN));
    assert_eq!(obs("", "", "2147483648", "", "").year(), None);
    assert_eq!(obs("", "", "", "", "").year(), None);
    assert_eq!(obs("", "", "-", "", "").year(), None);
    assert_eq!(obs("", "", " 2026", "", "").year(), None);
    assert_eq!(obs("", "", "20x6", "", "").year(), None);
}

#[test]
fn ons_series_title_carries_the_unit() {
    let monthly = SeriesResponse {
        description: description("CPIH ANNUAL RATE", "L55O", "%", ""),
        years: vec![],
        quarters: vec![],
        months: vec![obs("2026 MAY", "3.0", "2026", "May", "")],
    };
    let (title, rows) = series_from_ons(&monthly);
    assert_eq!(title, "CPIH ANNUAL RATE (%)");
    assert_eq!(rows.len(), 1);
    assert_eq!(rows[0].period, "2026 MAY");
    assert_eq!(rows[0].year, Some(2026));
    assert_eq!(rows[0].month, Some(5));
    assert_eq!(rows[0].value, "3.0");
    assert_eq!(rows[0].num, None);

    let gdp = SeriesResponse {
        description: description("GDP CVM", "ABMI", "m", "£"),
        years: vec![],
        quarters: vec![obs("2026 Q1", "709598", "2026", "", "Q1")],
        months: vec![],
    };
    let (title, rows) = series_from_ons(&gdp);
    assert_eq!(title, "GDP CVM (£m)");
    assert_eq!(rows[0].month, None);

    let bare = SeriesResponse {
        description: description("Plain", "X", "", ""),
        years: vec![],
        quarters: vec![],
        months: vec![],
    };
    assert_eq!(series_from_ons(&bare).0, "Plain");
}

#[test]
fn dbnomics_skips_missing_observations() {
    let resp = DbnomicsResponse {
        series: SeriesPage {
            docs: vec![SeriesDoc {
                series_name: "AWE: Whole Economy Level (£)".into(),
                period: vec!["2000-01".into(), "2026-05".into(), "2026-Q1".into(), "1999".into()],
                value: vec![
                    Value::Text("NA".into()),
                    Value::Number(743.0f64.to_string()),
                    Value::Number("4.9".into()),
                ],
            }],
        },
    };
    let (title, rows) = series_from_dbnomics(&resp).unwrap();
    assert!(title.starts_with("AWE"));
    assert_eq!(rows.len(), 2);
    assert_eq!(rows[0].period, "2026-05");
    assert_eq!(rows[0].year, Some(2026));
    assert_eq!(rows[0].month, Some(5));
    assert_eq!(rows[0].value, "743");
    assert_eq!(rows[0].num.as_deref(), Some("743"));
    assert_eq!(rows[1].period, "2026-Q1");
    assert_eq!(rows[1].month, None);
}

#[test]
fn dbnomics_periods_are_cut_on_byte_offsets() {
    let resp = DbnomicsResponse {
        series: SeriesPage {
            docs: vec![SeriesDoc {
                series_name: "x".into(),
                period: vec!["éabc12".into(), "20é6-05".into(), "202".into()],
                value: vec![
                    Value::Number("1".into()),
                    Value::Number("2".into()),
                    Value::Number("3".into()),
                ],
            }],
        },
    };
    let (_, rows) = series_from_dbnomics(&resp).unwrap();
    assert_eq!(rows[0].year, None);
    assert_eq!(rows[0].month, Some(12));
    assert_eq!(rows[1].year, None);
    assert_eq!(rows[2].year, None);
    assert_eq!(rows[2].month, None);
}

#[test]
fn dbnomics_without_series_is_an_error() {
    let resp = DbnomicsResponse { series: SeriesPage { docs: vec![] } };
    assert!(matches!(series_from_dbnomics(&resp), Err(SeriesError::NoSeries)));
}

#[test]
fn bank_rate_rows_carry_their_dates() {
    let rows = vec![
        BoeRow { date: "02 Jan 2024".into(), value: 5.25f64.to_string() },
        BoeRow { date: "not a date".into(), value: "5".into() },
    ];
    assert_eq!(rows[0].date().map(|d| (d.year, d.month, d.day)), Some((2024, 1, 2)));
    let (title, out) = series_from_rate(&rows);
    assert_eq!(title, "Bank of England Bank Rate (%)");
    assert_eq!(out[0].year, Some(2024));
    assert_eq!(out[0].month, Some(1));
    assert_eq!(out[0].value, "5.25");
    assert_eq!(out[0].num.as_deref(), Some("5.25"));
    assert_eq!(out[1].year, None);
    assert_eq!(out[1].month, None);
}

#[test]
fn each_series_has_its_source() {
    let gdp = series_request(SeriesKind::Gdp);
    assert_eq!(gdp.source, Source::Ons);
    assert_eq!((gdp.cache_key, gdp.ext, gdp.url), ("abmi", "json", GDP_URL));
    let rate = series_request(SeriesKind::Rate);
    assert_eq!(rate.source, Source::BankOfEngland);
    assert_eq!((rate.cache_key, rate.ext, rate.url), ("iudbedr", "csv", RATE_URL));
    assert_eq!(series_request(SeriesKind::Unemployment).cache_key, "mgsx");
    assert_eq!(series_request(SeriesKind::Inactivity).source, Source::Dbnomics);
    assert_eq!(SeriesKind::Unemployment.name(), "unemployment");
}

fn args(compare_to: Option<SeriesKind>) -> SeriesArgs {
    SeriesArgs { since: Some(2026), format: Format::Csv, compare_to }
}

#[test]
fn comparisons_are_checked_before_fetching() {
    assert_eq!(
        run_compare(&args(None), SeriesKind::Wages, SeriesKind::Wages),
        Err(RunError::SameSeries)
    );
    assert_eq!(
        run_compare(&args(None), SeriesKind::Gdp, SeriesKind::Gdp),
        Err(RunError::SameSeries)
    );
    assert_eq!(
        run_compare(&args(None), SeriesKind::Wages, SeriesKind::Gdp),
        Err(RunError::QuarterlyGdp)
    );
    assert_eq!(RunError::SameSeries.message(), "cannot compare a series with itself");
    assert_eq!(
        RunError::QuarterlyGdp.message(),
        "gdp is quarterly; monthly comparison is not supported yet"
    );
    assert_eq!(
        run(&Cli { command: Command::Wages(args(Some(SeriesKind::Inflation))) }),
        Ok(Plan::Compare {
            base: SeriesKind::Wages,
            target: SeriesKind::Inflation,
            since: Some(2026),
            format: Format::Csv,
        })
    );
    assert_eq!(
        run(&Cli { command: Command::Rate(args(None)) }),
        Ok(Plan::Single { kind: SeriesKind::Rate, since: Some(2026), format: Format::Csv })
    );
    assert_eq!(
        run(&Cli { command: Command::Gdp(args(Some(SeriesKind::Rate))) }),
        Err(RunError::QuarterlyGdp)
    );
}

#[test]
fn cache_files_are_named_by_lowercase_cdid() {
    assert_eq!(file_name("ABMI", "json"), "abmi.json");
    assert_eq!(file_name("IUDBEDR", "csv"), "iudbedr.csv");
}

#[test]
fn cached_responses_go_stale_after_a_day() {
    assert_eq!(MAX_AGE_SECS, 24 * 60 * 60);
    // within max age -> fresh
    assert!(!is_stale(10, 0, MAX_AGE_SECS, 0));
    assert!(!is_stale(MAX_AGE_SECS - 1, 999_999_999, MAX_AGE_SECS, 0));
    // only younger than max age is fresh
    assert!(is_stale(MAX_AGE_SECS, 0, MAX_AGE_SECS, 0));
    assert!(is_stale(MAX_AGE_SECS, 1, MAX_AGE_SECS, 0));
    // zero max age -> everything is stale
    assert!(is_stale(0, 0, 0, 0));
    assert!(is_stale(0, 1, 0, 0));
}

#[test]
fn rows_take_the_dates_they_are_given() {
    let o = obs("2026 MAY", "3.0", "2026", "May", "");
    let r = ons_row(&o, Some(7));
    assert_eq!((r.period.as_str(), r.year, r.month, r.value.as_str()), ("2026 MAY", Some(2026), Some(7), "3.0"));
    assert_eq!(r.num, None);

    let b = BoeRow { date: "02 Jan 2024".into(), value: "5.25".into() };
    let r = rate_row(&b, Some(CalendarDate { year: 1999, month: 3, day: 4 }));
    assert_eq!((r.year, r.month), (Some(1999), Some(3)));
    assert_eq!(r.num.as_deref(), Some("5.25"));
    let r = rate_row(&b, None);
    assert_eq!((r.year, r.month), (None, None));
}
