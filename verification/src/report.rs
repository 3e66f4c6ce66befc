//! The check report: per-status counts and the plain-text rendering.

use vstd::prelude::*;
use crate::checkers::{CheckResult, CheckResultView, EvidenceItem, EvidenceView, Status};
use crate::text::{
    append_chars, char_views, chars_of, decimal, decimal_exec, join_with, join_with_exec,
    repeat_char, repeat_exec, string_of,
};

verus! {

/// How many results ended in each status.
#[derive(Debug, Clone, Copy, PartialEq, Eq, Structural)]
pub struct Summary {
    pub pass: usize,
    pub fail: usize,
    pub manual: usize,
    pub error: usize,
}

/// The results of a run with their summary.
#[derive(Debug, Clone)]
pub struct Report {
    pub results: Vec<CheckResult>,
    pub summary: Summary,
}

/// The views of a list of results.
pub open spec fn result_views(rs: Seq<CheckResult>) -> Seq<CheckResultView> {
    rs.map_values(|r: CheckResult| r@)
}

/// Number of results with status `st`.
pub open spec fn status_count(rs: Seq<CheckResult>, st: Status) -> nat
    decreases rs.len(),
{
    if rs.len() == 0 {
        0
    } else {
        status_count(rs.drop_last(), st) + if rs.last().status == st {
            1nat
        } else {
            0nat
        }
    }
}

proof fn lemma_counts_sum(rs: Seq<CheckResult>)
    ensures
        status_count(rs, Status::Pass) + status_count(rs, Status::Fail) + status_count(
            rs,
            Status::Manual,
        ) + status_count(rs, Status::Error) == rs.len(),
    decreases rs.len(),
{
    if rs.len() > 0 {
        lemma_counts_sum(rs.drop_last());
    }
}

/// Counts the results by status. The four counts add up to the number of
/// results, and the results are kept as given.
pub fn build_report(results: Vec<CheckResult>) -> (r: Report)
    ensures
        r.results@ == results@,
        r.summary.pass == status_count(results@, Status::Pass),
        r.summary.fail == status_count(results@, Status::Fail),
        r.summary.manual == status_count(results@, Status::Manual),
        r.summary.error == status_count(results@, Status::Error),
        r.summary.pass + r.summary.fail + r.summary.manual + r.summary.error == results@.len(),
{
    let mut summary = Summary { pass: 0, fail: 0, manual: 0, error: 0 };
    let mut i: usize = 0;
    while i < results.len()
        invariant
            i <= results.len(),
            summary.pass == status_count(results@.subrange(0, i as int), Status::Pass),
            summary.fail == status_count(results@.subrange(0, i as int), Status::Fail),
            summary.manual == status_count(results@.subrange(0, i as int), Status::Manual),
            summary.error == status_count(results@.subrange(0, i as int), Status::Error),
            summary.pass + summary.fail + summary.manual + summary.error == i,
        decreases results.len() - i,
    {
        proof {
            assert(results@.subrange(0, i + 1).drop_last() =~= results@.subrange(0, i as int));
            lemma_counts_sum(results@.subrange(0, i as int));
        }
        match results[i].status {
            Status::Pass => summary.pass = summary.pass + 1,
            Status::Fail => summary.fail = summary.fail + 1,
            Status::Manual => summary.manual = summary.manual + 1,
            Status::Error => summary.error = summary.error + 1,
        }
        i = i + 1;
    }
    assert(results@.subrange(0, results.len() as int) =~= results@);
    proof {
        lemma_counts_sum(results@);
    }
    Report { results, summary }
}

/// The marker a status is shown with.
pub open spec fn status_marker(st: Status) -> Seq<char> {
    match st {
        Status::Pass => "[PASS]"@,
        Status::Fail => "[FAIL]"@,
        Status::Manual => "[MANUAL]"@,
        Status::Error => "[ERROR]"@,
    }
}

/// The line of one evidence item; `label` is the rendered box (empty when
/// the item has none).
pub open spec fn evidence_line(e: EvidenceView, label: Seq<char>) -> Seq<char> {
    "    [page "@ + decimal(e.page as nat) + label + "] "@ + match e.excerpt {
        Some(x) => x,
        None => seq![],
    }
}

/// The lines of the evidence items, each with its box label.
pub open spec fn evidence_lines(evs: Seq<EvidenceView>, labels: Seq<Seq<char>>) -> Seq<Seq<char>>
    decreases evs.len(),
{
    if evs.len() == 0 {
        seq![]
    } else {
        evidence_lines(evs.drop_last(), labels).push(
            evidence_line(evs.last(), labels[evs.len() - 1]),
        )
    }
}

/// The lines of one result: marker and id, the detail when there is one,
/// then the evidence.
pub open spec fn result_lines(r: CheckResultView, labels: Seq<Seq<char>>) -> Seq<Seq<char>> {
    seq!["\n"@ + status_marker(r.status) + " "@ + r.check_id] + (if r.detail.len() > 0 {
        seq!["  "@ + r.detail]
    } else {
        seq![]
    }) + evidence_lines(r.evidence, labels)
}

/// Whether a result is shown: quiet reports leave out passes and manual checks.
pub open spec fn shown(st: Status, quiet: bool) -> bool {
    !(quiet && (st == Status::Pass || st == Status::Manual))
}

/// The lines of all shown results, in order.
pub open spec fn results_lines(rs: Seq<CheckResultView>, labels: Seq<Seq<Seq<char>>>, quiet: bool) -> Seq<
    Seq<char>,
>
    decreases rs.len(),
{
    if rs.len() == 0 {
        seq![]
    } else {
        let before = results_lines(rs.drop_last(), labels, quiet);
        if shown(rs.last().status, quiet) {
            before + result_lines(rs.last(), labels[rs.len() - 1])
        } else {
            before
        }
    }
}

/// The closing summary line.
pub open spec fn summary_line(s: Summary) -> Seq<char> {
    "Summary: "@ + decimal(s.pass as nat) + " PASS, "@ + decimal(s.fail as nat) + " FAIL, "@
        + decimal(s.manual as nat) + " MANUAL, "@ + decimal(s.error as nat) + " ERROR"@
}

/// All lines of the rendered report.
pub open spec fn report_lines(results: Seq<CheckResultView>, summary: Summary, quiet: bool, labels: Seq<
    Seq<Seq<char>>,
>) -> Seq<Seq<char>> {
    let rule = repeat_char('=', 60);
    let head = if quiet {
        seq![]
    } else {
        seq![rule, "DISSERTATION FORMAT CHECK REPORT"@, rule]
    };
    let tail = if quiet {
        seq![summary_line(summary)]
    } else {
        seq!["\n"@ + repeat_char('\u{2500}', 60), summary_line(summary), rule]
    };
    head + results_lines(results, labels, quiet) + tail
}

/// The labels fit the report: one list per result, one label per evidence item.
pub open spec fn labels_fit(results: Seq<CheckResult>, labels: Seq<Seq<Seq<char>>>) -> bool {
    &&& labels.len() == results.len()
    &&& forall|i: int| 0 <= i < results.len() ==> (#[trigger] labels[i]).len() == results[i].evidence@.len()
}

/// The views of the box labels.
pub open spec fn label_views(labels: Seq<Vec<String>>) -> Seq<Seq<Seq<char>>> {
    labels.map_values(|l: Vec<String>| l@.map_values(|s: String| s@))
}

fn push_line(lines: &mut Vec<Vec<char>>, line: Vec<char>)
    ensures
        char_views(final(lines)@) == char_views(old(lines)@).push(line@),
{
    lines.push(line);
    assert(char_views(lines@) =~= char_views(old(lines)@).push(line@));
}

fn result_lines_exec(lines: &mut Vec<Vec<char>>, r: &CheckResult, labels: &Vec<String>)
    requires
        labels@.len() == r.evidence@.len(),
    ensures
        char_views(final(lines)@) == char_views(old(lines)@) + result_lines(
            r@,
            labels@.map_values(|s: String| s@),
        ),
{
    let ghost lv = labels@.map_values(|s: String| s@);
    let ghost start = char_views(lines@);
    let marker = match r.status {
        Status::Pass => "[PASS]",
        Status::Fail => "[FAIL]",
        Status::Manual => "[MANUAL]",
        Status::Error => "[ERROR]",
    };
    let mut first = chars_of("\n");
    append_chars(&mut first, &chars_of(marker));
    append_chars(&mut first, &chars_of(" "));
    append_chars(&mut first, &chars_of(r.check_id.as_str()));
    push_line(lines, first);
    let dc = chars_of(r.detail.as_str());
    if dc.len() > 0 {
        let mut d = chars_of("  ");
        append_chars(&mut d, &dc);
        push_line(lines, d);
    }
    let ghost mid = char_views(lines@);
    assert(mid == start + (seq!["\n"@ + status_marker(r@.status) + " "@ + r@.check_id] + (if r@.detail.len()
        > 0 {
        seq!["  "@ + r@.detail]
    } else {
        seq![]
    })));
    let ghost evs = r@.evidence;
    let mut j: usize = 0;
    assert(mid + evidence_lines(evs.subrange(0, 0), lv) =~= mid);
    while j < r.evidence.len()
        invariant
            j <= r.evidence.len(),
            labels@.len() == r.evidence@.len(),
            lv == labels@.map_values(|s: String| s@),
            evs == r@.evidence,
            char_views(lines@) == mid + evidence_lines(evs.subrange(0, j as int), lv),
        decreases r.evidence.len() - j,
    {
        assert(evs.subrange(0, j + 1).drop_last() =~= evs.subrange(0, j as int));
        let e = &r.evidence[j];
        let mut line = chars_of("    [page ");
        append_chars(&mut line, &decimal_exec(e.page));
        append_chars(&mut line, &chars_of(labels[j].as_str()));
        append_chars(&mut line, &chars_of("] "));
        match &e.excerpt {
            Some(x) => append_chars(&mut line, &chars_of(x.as_str())),
            None => {},
        }
        assert(line@ == evidence_line(evs[j as int], lv[j as int]));
        push_line(lines, line);
        assert(mid + evidence_lines(evs.subrange(0, j + 1), lv) =~= (mid + evidence_lines(
            evs.subrange(0, j as int),
            lv,
        )).push(line@));
        j = j + 1;
    }
    assert(evs.subrange(0, r.evidence.len() as int) =~= evs);
    assert(char_views(lines@) =~= start + result_lines(r@, lv));
}

/// Renders the report as text. `box_labels[i][j]` is the rendered box of the
/// `j`-th evidence item of the `i`-th result (empty for an item without one);
/// boxes are coordinates, which the caller formats.
pub fn format_text_with_options(report: &Report, quiet: bool, box_labels: &Vec<Vec<String>>) -> (r:
    String)
    requires
        labels_fit(report.results@, label_views(box_labels@)),
    ensures
        r@ == join_with(
            report_lines(
                result_views(report.results@),
                report.summary,
                quiet,
                label_views(box_labels@),
            ),
            "\n"@,
        ),
{
    let ghost labels = label_views(box_labels@);
    let ghost rv = result_views(report.results@);
    let mut lines: Vec<Vec<char>> = Vec::new();
    if !quiet {
        push_line(&mut lines, repeat_exec('=', 60));
        push_line(&mut lines, chars_of("DISSERTATION FORMAT CHECK REPORT"));
        push_line(&mut lines, repeat_exec('=', 60));
    }
    let ghost head = char_views(lines@);
    let mut i: usize = 0;
    assert(head + results_lines(rv.subrange(0, 0), labels, quiet) =~= head);
    while i < report.results.len()
        invariant
            i <= report.results.len(),
            labels_fit(report.results@, labels),
            labels == label_views(box_labels@),
            rv == result_views(report.results@),
            char_views(lines@) == head + results_lines(rv.subrange(0, i as int), labels, quiet),
        decreases report.results.len() - i,
    {
        assert(rv.subrange(0, i + 1).drop_last() =~= rv.subrange(0, i as int));
        let r = &report.results[i];
        let show = match r.status {
            Status::Pass => !quiet,
            Status::Manual => !quiet,
            _ => true,
        };
        if show {
            assert(labels[i as int] == box_labels@[i as int]@.map_values(|s: String| s@));
            result_lines_exec(&mut lines, r, &box_labels[i]);
            assert(head + results_lines(rv.subrange(0, i + 1), labels, quiet) =~= head
                + results_lines(rv.subrange(0, i as int), labels, quiet) + result_lines(
                rv[i as int],
                labels[i as int],
            ));
        }
        i = i + 1;
    }
    assert(rv.subrange(0, report.results.len() as int) =~= rv);
    let s = &report.summary;
    if !quiet {
        let mut sep = chars_of("\n");
        append_chars(&mut sep, &repeat_exec('\u{2500}', 60));
        push_line(&mut lines, sep);
    }
    let mut sl = chars_of("Summary: ");
    append_chars(&mut sl, &decimal_exec(s.pass));
    append_chars(&mut sl, &chars_of(" PASS, "));
    append_chars(&mut sl, &decimal_exec(s.fail));
    append_chars(&mut sl, &chars_of(" FAIL, "));
    append_chars(&mut sl, &decimal_exec(s.manual));
    append_chars(&mut sl, &chars_of(" MANUAL, "));
    append_chars(&mut sl, &decimal_exec(s.error));
    append_chars(&mut sl, &chars_of(" ERROR"));
    push_line(&mut lines, sl);
    if !quiet {
        push_line(&mut lines, repeat_exec('=', 60));
    }
    assert(char_views(lines@) =~= report_lines(rv, report.summary, quiet, labels));
    let text = join_with_exec(&lines, &chars_of("\n"));
    string_of(&text)
}

/// The header line of a result in the rendered report.
pub open spec fn result_header(r: CheckResultView) -> Seq<char> {
    "\n"@ + status_marker(r.status) + " "@ + r.check_id
}

proof fn lemma_results_lines_list(rs: Seq<CheckResultView>, labels: Seq<Seq<Seq<char>>>, quiet: bool, i: int)
    requires
        0 <= i < rs.len(),
        shown(rs[i].status, quiet),
    ensures
        results_lines(rs, labels, quiet).contains(result_header(rs[i])),
    decreases rs.len(),
{
    let before = results_lines(rs.drop_last(), labels, quiet);
    if i < rs.len() - 1 {
        lemma_results_lines_list(rs.drop_last(), labels, quiet, i);
        assert(rs.drop_last()[i] == rs[i]);
        let k = choose|k: int| 0 <= k < before.len() && before[k] == result_header(rs[i]);
        if shown(rs.last().status, quiet) {
            assert(results_lines(rs, labels, quiet)[k] == before[k]);
        }
    } else {
        let rl = result_lines(rs.last(), labels[rs.len() - 1]);
        assert(rl[0] == result_header(rs[i]));
        assert(results_lines(rs, labels, quiet)[before.len() as int] == rl[0]);
    }
}

/// The failed and errored results, in order, each with its labels.
pub open spec fn failures_only(rs: Seq<CheckResultView>, labels: Seq<Seq<Seq<char>>>) -> (
    Seq<CheckResultView>,
    Seq<Seq<Seq<char>>>,
)
    decreases rs.len(),
{
    if rs.len() == 0 {
        (seq![], seq![])
    } else {
        let (r0, l0) = failures_only(rs.drop_last(), labels);
        if rs.last().status == Status::Fail || rs.last().status == Status::Error {
            (r0.push(rs.last()), l0.push(labels[rs.len() - 1]))
        } else {
            (r0, l0)
        }
    }
}

proof fn lemma_failures_only_len(rs: Seq<CheckResultView>, labels: Seq<Seq<Seq<char>>>)
    ensures
        failures_only(rs, labels).0.len() == failures_only(rs, labels).1.len(),
    decreases rs.len(),
{
    if rs.len() > 0 {
        lemma_failures_only_len(rs.drop_last(), labels);
    }
}

proof fn lemma_results_lines_labels(
    rs: Seq<CheckResultView>,
    a: Seq<Seq<Seq<char>>>,
    b: Seq<Seq<Seq<char>>>,
    quiet: bool,
)
    requires
        forall|i: int| 0 <= i < rs.len() ==> a[i] == b[i],
    ensures
        results_lines(rs, a, quiet) == results_lines(rs, b, quiet),
    decreases rs.len(),
{
    if rs.len() > 0 {
        lemma_results_lines_labels(rs.drop_last(), a, b, quiet);
        assert(a[rs.len() - 1] == b[rs.len() - 1]);
    }
}

/// A quiet report lists exactly the failed and errored checks: its result
/// lines are those a full report gives for those results alone, in order.
pub proof fn quiet_lists_failures_only(rs: Seq<CheckResultView>, labels: Seq<Seq<Seq<char>>>)
    ensures
        results_lines(rs, labels, true) == results_lines(
            failures_only(rs, labels).0,
            failures_only(rs, labels).1,
            false,
        ),
    decreases rs.len(),
{
    if rs.len() > 0 {
        quiet_lists_failures_only(rs.drop_last(), labels);
        lemma_failures_only_len(rs.drop_last(), labels);
        let (r0, l0) = failures_only(rs.drop_last(), labels);
        if rs.last().status == Status::Fail || rs.last().status == Status::Error {
            let r1 = r0.push(rs.last());
            let l1 = l0.push(labels[rs.len() - 1]);
            assert(r1.drop_last() =~= r0);
            lemma_results_lines_labels(r0, l1, l0, false);
            assert(l1[r1.len() - 1] == labels[rs.len() - 1]);
        }
    }
}

/// Every failed or errored check is listed, with its status and id, in the
/// rendered report, quiet or not; a full report lists every check.
pub proof fn failures_are_listed(
    results: Seq<CheckResultView>,
    summary: Summary,
    quiet: bool,
    labels: Seq<Seq<Seq<char>>>,
    i: int,
)
    requires
        0 <= i < results.len(),
        !quiet || results[i].status == Status::Fail || results[i].status == Status::Error,
    ensures
        report_lines(results, summary, quiet, labels).contains(
            "\n"@ + (match results[i].status {
                Status::Pass => "[PASS]"@,
                Status::Fail => "[FAIL]"@,
                Status::Manual => "[MANUAL]"@,
                Status::Error => "[ERROR]"@,
            }) + " "@ + results[i].check_id,
        ),
{
    lemma_results_lines_list(results, labels, quiet, i);
    let rule = repeat_char('=', 60);
    let head = if quiet {
        seq![]
    } else {
        seq![rule, "DISSERTATION FORMAT CHECK REPORT"@, rule]
    };
    let body = results_lines(results, labels, quiet);
    let k = choose|k: int| 0 <= k < body.len() && body[k] == result_header(results[i]);
    assert(report_lines(results, summary, quiet, labels)[head.len() + k] == body[k]);
}

} // verus!
