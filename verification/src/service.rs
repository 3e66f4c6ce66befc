//! The publishing service's request and response shapes and how they are
//! filled from a check report and a template.

use vstd::prelude::*;
use crate::checkers::{CheckResult, CheckResultView, Status};
use crate::markup::{yaml_text, yaml_text_entry, YamlDoc};
use crate::report::{result_views, Report};
use crate::template::{TemplateFile, TemplateSet};
use crate::text::{chars_of, parse_usize, parsed_usize, string_of};

verus! {

/// The service's settings: its port and the catalog it serves.
#[derive(Debug)]
pub struct AppConfig {
    pub port: u16,
    pub catalog_path: std::path::PathBuf,
}

/// The port named by the `PORT` setting when it parses as a `u16`, else 4000.
pub open spec fn port_setting(value: Option<Seq<char>>) -> u16 {
    match value {
        Some(v) => match parsed_usize(v) {
            Some(n) => if n <= 65535 {
                n as u16
            } else {
                4000
            },
            None => 4000,
        },
        None => 4000,
    }
}

/// The port to listen on (see `port_setting`).
pub fn port_from(value: Option<&str>) -> (r: u16)
    ensures
        r == port_setting(
            match value {
                Some(v) => Some(v@),
                None => None,
            },
        ),
{
    match value {
        Some(v) => match parse_usize(&chars_of(v)) {
            Some(n) => if n <= 65535 {
                n as u16
            } else {
                4000
            },
            None => 4000,
        },
        None => 4000,
    }
}

/// A request to check a PDF against an institution's spec.
#[derive(Debug, Clone)]
pub struct CheckRequest {
    pub pdf_base64: String,
    pub institution: String,
}

/// One result as the check endpoint reports it.
#[derive(Debug, Clone)]
pub struct CheckViolation {
    pub check_id: String,
    pub status: String,
    pub detail: String,
    pub page: Option<i32>,
}

/// The check endpoint's answer.
#[derive(Debug, Clone)]
pub struct CheckResponse {
    pub violations: Vec<CheckViolation>,
    pub pass_count: usize,
    pub fail_count: usize,
    pub error_count: usize,
}

/// The name of a status as `Debug` writes it.
pub open spec fn status_name(s: Status) -> Seq<char> {
    match s {
        Status::Pass => "Pass"@,
        Status::Fail => "Fail"@,
        Status::Manual => "Manual"@,
        Status::Error => "Error"@,
    }
}

/// The violation reported for a result: its id, status name, detail, and the
/// page of its first evidence as an `i32`.
pub open spec fn violation_fits(v: CheckViolation, r: CheckResultView) -> bool {
    &&& v.check_id@ == r.check_id
    &&& v.status@ == status_name(r.status)
    &&& v.detail@ == r.detail
    &&& v.page == (if r.evidence.len() > 0 {
        Some(r.evidence[0].page as i32)
    } else {
        None
    })
}

fn status_name_exec(s: Status) -> (r: &'static str)
    ensures
        r@ == status_name(s),
{
    match s {
        Status::Pass => "Pass",
        Status::Fail => "Fail",
        Status::Manual => "Manual",
        Status::Error => "Error",
    }
}

/// The check endpoint's answer for a report: one entry per result and the
/// pass, fail and error counts of its summary.
pub fn check_response(report: &Report) -> (r: CheckResponse)
    ensures
        r.violations@.len() == report.results@.len(),
        forall|i: int|
            0 <= i < r.violations@.len() ==> violation_fits(
                #[trigger] r.violations@[i],
                report.results@[i]@,
            ),
        r.pass_count == report.summary.pass,
        r.fail_count == report.summary.fail,
        r.error_count == report.summary.error,
{
    let mut violations: Vec<CheckViolation> = Vec::new();
    let mut i: usize = 0;
    while i < report.results.len()
        invariant
            i <= report.results.len(),
            violations@.len() == i,
            forall|k: int|
                0 <= k < i ==> violation_fits(#[trigger] violations@[k], report.results@[k]@),
        decreases report.results.len() - i,
    {
        let r = &report.results[i];
        let page = if r.evidence.len() > 0 {
            Some(r.evidence[0].page as i32)
        } else {
            None
        };
        violations.push(
            CheckViolation {
                check_id: r.check_id.clone(),
                status: string_of(&chars_of(status_name_exec(r.status))),
                detail: r.detail.clone(),
                page,
            },
        );
        i = i + 1;
    }
    CheckResponse {
        violations,
        pass_count: report.summary.pass,
        fail_count: report.summary.fail,
        error_count: report.summary.error,
    }
}

/// A check counts as automated unless its `automatable` flag is `false`.
pub open spec fn counts_as_automated(flag: Option<bool>) -> bool {
    match flag {
        Some(b) => b,
        None => true,
    }
}

/// How many of the flags mark an automated check.
pub open spec fn automated_count(flags: Seq<Option<bool>>) -> nat
    decreases flags.len(),
{
    if flags.len() == 0 {
        0
    } else {
        automated_count(flags.drop_last()) + if counts_as_automated(flags.last()) {
            1nat
        } else {
            0nat
        }
    }
}

/// The numbers of automated and human checks of a spec whose checks carry
/// the given `automatable` flags.
pub fn spec_check_counts(flags: &[Option<bool>]) -> (r: (usize, usize))
    ensures
        r.0 == automated_count(flags@),
        r.0 + r.1 == flags@.len(),
{
    let mut automated: usize = 0;
    let mut human: usize = 0;
    let mut i: usize = 0;
    while i < flags.len()
        invariant
            i <= flags.len(),
            automated == automated_count(flags@.subrange(0, i as int)),
            automated + human == i,
        decreases flags.len() - i,
    {
        assert(flags@.subrange(0, i + 1).drop_last() =~= flags@.subrange(0, i as int));
        let automatable = match flags[i] {
            Some(b) => b,
            None => true,
        };
        if automatable {
            automated = automated + 1;
        } else {
            human = human + 1;
        }
        i = i + 1;
    }
    assert(flags@.subrange(0, flags.len() as int) =~= flags@);
    (automated, human)
}

/// The query of the compile endpoint.
#[derive(Debug, Clone)]
pub struct CompileParams {
    pub institution: String,
}

/// A template file as the template endpoint returns it.
#[derive(Debug, Clone)]
pub struct TemplateFileRef {
    pub path: String,
    pub content: String,
}

/// The template endpoint's answer.
#[derive(Debug, Clone)]
pub struct TemplateResponse {
    pub id: String,
    pub entry: String,
    pub files: Vec<TemplateFileRef>,
}

/// The template endpoint's answer for an institution's template: its id, the
/// entry file and every file with path and content, in order.
pub fn template_response(id: &str, set: TemplateSet) -> (r: TemplateResponse)
    ensures
        r.id@ == id@,
        r.entry@ == set.entry@,
        r.files@.len() == set.files@.len(),
        forall|i: int|
            0 <= i < r.files@.len() ==> (#[trigger] r.files@[i]).path@ == set.files@[i].path@
                && r.files@[i].content@ == set.files@[i].content@,
{
    let mut files: Vec<TemplateFileRef> = Vec::new();
    let mut i: usize = 0;
    while i < set.files.len()
        invariant
            i <= set.files.len(),
            files@.len() == i,
            forall|k: int|
                0 <= k < i ==> (#[trigger] files@[k]).path@ == set.files@[k].path@ && files@[k].content@
                    == set.files@[k].content@,
        decreases set.files.len() - i,
    {
        let f = &set.files[i];
        files.push(TemplateFileRef { path: f.path.clone(), content: f.content.clone() });
        i = i + 1;
    }
    TemplateResponse { id: string_of(&chars_of(id)), entry: set.entry, files }
}

/// The display name of an institution: the `institution` entry of its spec
/// when that is a string, else its directory name `id`.
pub fn institution_name(spec: &YamlDoc, id: &str) -> (r: String)
    ensures
        r@ == (match yaml_text_entry(spec@, "institution"@) {
            Some(n) => n,
            None => id@,
        }),
{
    match yaml_text(spec, "institution") {
        Some(n) => n,
        None => string_of(&chars_of(id)),
    }
}

} // verus!
