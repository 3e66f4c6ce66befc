//! The command line's arguments and the decisions it takes on them: which
//! checks to run, where an annotation's report comes from, and the exit code.

use vstd::prelude::*;
use crate::engine::CheckOptions;
use crate::report::Summary;

verus! {

/// Arguments of `check`.
#[derive(Debug)]
pub struct CheckArgs {
    pub spec: std::path::PathBuf,
    pub json: bool,
    pub quiet: bool,
    pub check: Option<String>,
    pub category: Option<String>,
    pub dump_extract: bool,
    pub pdf: std::path::PathBuf,
}

/// Arguments of `calibrate`.
#[derive(Debug)]
pub struct CalibrateArgs {
    pub spec: std::path::PathBuf,
    pub corpus: std::path::PathBuf,
    pub json: bool,
}

/// Arguments of `annotate`.
#[derive(Debug)]
pub struct AnnotateArgs {
    pub pdf: std::path::PathBuf,
    pub out: Option<std::path::PathBuf>,
    pub report: Option<std::path::PathBuf>,
    pub spec: Option<std::path::PathBuf>,
    pub check: Option<String>,
    pub category: Option<String>,
}

/// The check filters of the command line: one check id when given, and the category.
pub fn options_for(check: Option<String>, category: Option<String>) -> (r: CheckOptions)
    ensures
        match check {
            Some(id) => r.check_ids matches Some(ids) && ids@.len() == 1 && ids@[0] == id,
            None => r.check_ids is None,
        },
        r.category == category,
{
    let check_ids = match check {
        Some(id) => {
            let mut v: Vec<String> = Vec::new();
            v.push(id);
            Some(v)
        },
        None => None,
    };
    CheckOptions { check_ids, category }
}

/// The exit code of a check run: 1 when anything failed or erred, else 0.
pub fn check_exit_code(summary: &Summary) -> (r: i32)
    ensures
        r == (if summary.fail > 0 || summary.error > 0 {
            1i32
        } else {
            0i32
        }),
{
    if summary.fail > 0 || summary.error > 0 {
        1
    } else {
        0
    }
}

/// The exit code of a calibration: 1 when some automated check failed, else 0.
pub fn calibrate_exit_code(automated_failures: usize) -> (r: i32)
    ensures
        r == (if automated_failures > 0 {
            1i32
        } else {
            0i32
        }),
{
    if automated_failures > 0 {
        1
    } else {
        0
    }
}

/// Where `annotate` takes its report from.
#[derive(Debug, Clone, Copy, PartialEq, Eq, Structural)]
pub enum ReportSource {
    /// A saved JSON report.
    SavedReport,
    /// Running the spec's checks on the PDF.
    RunSpec,
}

/// The problems `annotate` rejects its arguments for.
#[derive(Debug, Clone, Copy, PartialEq, Eq, Structural)]
pub enum AnnotateArgError {
    /// `--check` or `--category` given with `--report`.
    FiltersNeedSpec,
    /// Both `--report` and `--spec`.
    BothSources,
    /// Neither `--report` nor `--spec`.
    NoSource,
}

impl AnnotateArgError {
    pub fn message(&self) -> (r: &'static str)
        ensures
            r@ == match *self {
                AnnotateArgError::FiltersNeedSpec => "--check and --category require --spec"@,
                AnnotateArgError::BothSources => "--report and --spec are mutually exclusive"@,
                AnnotateArgError::NoSource => "one of --report or --spec is required"@,
            },
    {
        match self {
            AnnotateArgError::FiltersNeedSpec => "--check and --category require --spec",
            AnnotateArgError::BothSources => "--report and --spec are mutually exclusive",
            AnnotateArgError::NoSource => "one of --report or --spec is required",
        }
    }
}

/// The check filters only go with `--spec`.
pub fn check_filters(args: &AnnotateArgs) -> (r: Result<(), AnnotateArgError>)
    ensures
        (args.report is Some && (args.check is Some || args.category is Some)) ==> r == Err::<
            (),
            AnnotateArgError,
        >(AnnotateArgError::FiltersNeedSpec),
        !(args.report is Some && (args.check is Some || args.category is Some)) ==> r is Ok,
{
    if args.report.is_some() && (args.check.is_some() || args.category.is_some()) {
        Err(AnnotateArgError::FiltersNeedSpec)
    } else {
        Ok(())
    }
}

/// Exactly one of `--report` and `--spec` names the report's source.
pub fn report_source(args: &AnnotateArgs) -> (r: Result<ReportSource, AnnotateArgError>)
    ensures
        r == (match (args.report is Some, args.spec is Some) {
            (true, true) => Err(AnnotateArgError::BothSources),
            (false, false) => Err(AnnotateArgError::NoSource),
            (true, false) => Ok(ReportSource::SavedReport),
            (false, true) => Ok(ReportSource::RunSpec),
        }),
{
    match (args.report.is_some(), args.spec.is_some()) {
        (true, true) => Err(AnnotateArgError::BothSources),
        (false, false) => Err(AnnotateArgError::NoSource),
        (true, false) => Ok(ReportSource::SavedReport),
        (false, true) => Ok(ReportSource::RunSpec),
    }
}

} // verus!
