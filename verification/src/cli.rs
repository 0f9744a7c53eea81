//! What a command line asks for, and the checks made before anything is
//! fetched.

use vstd::prelude::*;

use crate::series::SeriesKind;

verus! {

/// Output format.
#[derive(Clone, Copy, PartialEq, Eq, Structural, Debug)]
pub enum Format {
    Table,
    Csv,
}

/// The options every series command takes.
#[derive(Clone, Copy, PartialEq, Eq, Structural, Debug)]
pub struct SeriesArgs {
    /// Only show observations from this year onwards.
    pub since: Option<i32>,
    pub format: Format,
    /// Show another series alongside, aligned on months.
    pub compare_to: Option<SeriesKind>,
}

/// One command per series.
#[derive(Clone, Copy, PartialEq, Eq, Structural, Debug)]
pub enum Command {
    /// GDP, chained volume measures, seasonally adjusted £m (quarterly)
    Gdp(SeriesArgs),
    /// CPIH annual inflation rate, all items (monthly)
    Inflation(SeriesArgs),
    /// Bank of England Bank Rate (daily)
    Rate(SeriesArgs),
    /// Average weekly earnings, whole economy total pay £ (monthly)
    Wages(SeriesArgs),
    /// Unemployment rate, aged 16 and over, seasonally adjusted % (monthly)
    Unemployment(SeriesArgs),
    /// Economic inactivity rate, aged 16-64, seasonally adjusted % (monthly)
    Inactivity(SeriesArgs),
}

/// A parsed command line.
#[derive(Clone, Copy, PartialEq, Eq, Structural, Debug)]
pub struct Cli {
    pub command: Command,
}

/// What a command line is carried out as.
#[derive(Clone, Copy, PartialEq, Eq, Structural, Debug)]
pub enum Plan {
    /// Fetch one series, keep the observations from `since` onwards, print it.
    Single { kind: SeriesKind, since: Option<i32>, format: Format },
    /// Fetch two series, keep the observations of each from `since` onwards,
    /// join them on calendar months, print the join.
    Compare { base: SeriesKind, target: SeriesKind, since: Option<i32>, format: Format },
}

/// Why a comparison is refused.
#[derive(Clone, Copy, PartialEq, Eq, Structural, Debug)]
pub enum RunError {
    /// A series was compared with itself.
    SameSeries,
    /// GDP took part in a comparison; it is quarterly.
    QuarterlyGdp,
}

impl RunError {
    /// The message the tool prints for the error.
    pub fn message(&self) -> (r: String)
        ensures
            r@ == match self {
                RunError::SameSeries => "cannot compare a series with itself"@,
                RunError::QuarterlyGdp => "gdp is quarterly; monthly comparison is not supported yet"@,
            },
    {
        match self {
            RunError::SameSeries => String::from_str("cannot compare a series with itself"),
            RunError::QuarterlyGdp => String::from_str(
                "gdp is quarterly; monthly comparison is not supported yet",
            ),
        }
    }
}

/// The series a command names, with its options.
pub open spec fn command_parts(c: Command) -> (SeriesArgs, SeriesKind) {
    match c {
        Command::Gdp(a) => (a, SeriesKind::Gdp),
        Command::Inflation(a) => (a, SeriesKind::Inflation),
        Command::Rate(a) => (a, SeriesKind::Rate),
        Command::Wages(a) => (a, SeriesKind::Wages),
        Command::Unemployment(a) => (a, SeriesKind::Unemployment),
        Command::Inactivity(a) => (a, SeriesKind::Inactivity),
    }
}

/// The outcome of comparing `base` with `target` under `args`: refused when
/// the two are the same series, else when either is GDP; planned otherwise.
pub open spec fn compare_outcome(args: SeriesArgs, base: SeriesKind, target: SeriesKind) -> Result<
    Plan,
    RunError,
> {
    if base == target {
        Err(RunError::SameSeries)
    } else if base == SeriesKind::Gdp || target == SeriesKind::Gdp {
        Err(RunError::QuarterlyGdp)
    } else {
        Ok(Plan::Compare { base, target, since: args.since, format: args.format })
    }
}

/// The outcome of a command line: a comparison when `--compare-to` is
/// given, a single series otherwise.
pub open spec fn run_outcome(cli: Cli) -> Result<Plan, RunError> {
    let (args, kind) = command_parts(cli.command);
    match args.compare_to {
        Some(target) => compare_outcome(args, kind, target),
        None => Ok(Plan::Single { kind, since: args.since, format: args.format }),
    }
}

/// Decides how a command line is carried out.
pub fn run(cli: &Cli) -> (r: Result<Plan, RunError>)
    ensures
        r == run_outcome(*cli),
{
    let (args, kind) = match cli.command {
        Command::Gdp(args) => (args, SeriesKind::Gdp),
        Command::Inflation(args) => (args, SeriesKind::Inflation),
        Command::Rate(args) => (args, SeriesKind::Rate),
        Command::Wages(args) => (args, SeriesKind::Wages),
        Command::Unemployment(args) => (args, SeriesKind::Unemployment),
        Command::Inactivity(args) => (args, SeriesKind::Inactivity),
    };
    if let Some(target) = args.compare_to {
        return run_compare(&args, kind, target);
    }
    Ok(Plan::Single { kind, since: args.since, format: args.format })
}

/// Checks a comparison of `base` with `target` and plans it.
pub fn run_compare(args: &SeriesArgs, base: SeriesKind, target: SeriesKind) -> (r: Result<
    Plan,
    RunError,
>)
    ensures
        r == compare_outcome(*args, base, target),
{
    if base == target {
        return Err(RunError::SameSeries);
    }
    if base == SeriesKind::Gdp || target == SeriesKind::Gdp {
        return Err(RunError::QuarterlyGdp);
    }
    Ok(Plan::Compare { base, target, since: args.since, format: args.format })
}

} // verus!
