//! What an annotated copy of a checked PDF says: the sticky-note text of an
//! in-place finding, the ASCII summary page, and which evidence is marked on
//! which page.

use vstd::prelude::*;
use crate::checkers::{status_label, CheckResult, CheckResultView, EvidenceItem, EvidenceView, Status};
use crate::report::{result_views, Report, Summary};
use crate::text::{
    append_chars, char_views, chars_of, decimal, decimal_exec, join_with, join_with_exec,
    repeat_char, repeat_exec, string_of,
};

verus! {

/// The sticky-note text of a finding: "[id] STATUS", the detail on the next
/// line, and the excerpt in curly quotes on a third line when there is one.
pub open spec fn note_text(check_id: Seq<char>, status: Seq<char>, detail: Seq<char>, excerpt: Option<
    Seq<char>,
>) -> Seq<char> {
    "["@ + check_id + "] "@ + status + "\n"@ + detail + match excerpt {
        Some(ex) => "\n\u{201c}"@ + ex + "\u{201d}"@,
        None => seq![],
    }
}

/// Builds the sticky-note body for an in-place finding.
pub fn note_contents(check_id: &str, status: &str, detail: &str, excerpt: Option<&str>) -> (r: String)
    ensures
        r@ == note_text(
            check_id@,
            status@,
            detail@,
            match excerpt {
                Some(e) => Some(e@),
                None => None,
            },
        ),
{
    let mut s = chars_of("[");
    append_chars(&mut s, &chars_of(check_id));
    append_chars(&mut s, &chars_of("] "));
    append_chars(&mut s, &chars_of(status));
    append_chars(&mut s, &chars_of("\n"));
    append_chars(&mut s, &chars_of(detail));
    match excerpt {
        Some(ex) => {
            append_chars(&mut s, &chars_of("\n\u{201c}"));
            append_chars(&mut s, &chars_of(ex));
            append_chars(&mut s, &chars_of("\u{201d}"));
        },
        None => {},
    }
    string_of(&s)
}

/// The character itself when it is ASCII, `?` otherwise.
pub open spec fn ascii_char(c: char) -> char {
    if (c as u32) < 128 {
        c
    } else {
        '?'
    }
}

/// Every non-ASCII character of `s` replaced by `?`.
pub open spec fn ascii_text(s: Seq<char>) -> Seq<char> {
    s.map_values(|c: char| ascii_char(c))
}

/// Maps any non-ASCII character to `?` so the summary page stays ASCII-only.
pub fn ascii_only(s: &str) -> (r: String)
    ensures
        r@ == ascii_text(s@),
{
    let cs = chars_of(s);
    let mut out: Vec<char> = Vec::new();
    let mut i: usize = 0;
    while i < cs.len()
        invariant
            i <= cs.len(),
            out@ == ascii_text(cs@.subrange(0, i as int)),
        decreases cs.len() - i,
    {
        let c = cs[i];
        let d = if (c as u32) < 128 {
            c
        } else {
            '?'
        };
        out.push(d);
        assert(ascii_text(cs@.subrange(0, i + 1)) =~= ascii_text(cs@.subrange(0, i as int)).push(
            ascii_char(cs@[i as int]),
        ));
        i = i + 1;
    }
    assert(cs@.subrange(0, cs.len() as int) =~= cs@);
    string_of(&out)
}

/// The evidence of a result that has no box (document-level evidence).
pub open spec fn boxless(evs: Seq<EvidenceView>) -> Seq<EvidenceView>
    decreases evs.len(),
{
    if evs.len() == 0 {
        seq![]
    } else if evs.last().bbox is None {
        boxless(evs.drop_last()).push(evs.last())
    } else {
        boxless(evs.drop_last())
    }
}

/// The summary-page line of a document-level evidence item.
pub open spec fn boxless_line(e: EvidenceView) -> Seq<char> {
    "    page "@ + decimal(e.page as nat) + "  "@ + ascii_text(
        match e.excerpt {
            Some(x) => x,
            None => seq![],
        },
    )
}

/// The summary-page lines of one finding with document-level evidence.
pub open spec fn finding_lines(r: CheckResultView) -> Seq<Seq<char>> {
    seq!["["@ + status_label(r.status) + "] "@ + r.check_id] + (if r.detail.len() > 0 {
        seq!["    "@ + ascii_text(r.detail)]
    } else {
        seq![]
    }) + boxless(r.evidence).map_values(|e: EvidenceView| boxless_line(e))
}

/// A result listed on the summary page: not a pass, with document-level evidence.
pub open spec fn listed(r: CheckResultView) -> bool {
    r.status != Status::Pass && boxless(r.evidence).len() > 0
}

/// The summary-page lines of all listed findings, in order.
pub open spec fn findings_lines(rs: Seq<CheckResultView>) -> Seq<Seq<char>>
    decreases rs.len(),
{
    if rs.len() == 0 {
        seq![]
    } else if listed(rs.last()) {
        findings_lines(rs.drop_last()) + finding_lines(rs.last())
    } else {
        findings_lines(rs.drop_last())
    }
}

/// All lines of the summary page.
pub open spec fn summary_lines(rs: Seq<CheckResultView>, s: Summary) -> Seq<Seq<char>> {
    let found = findings_lines(rs);
    seq![
        "ScholarPress Format Check - Annotated Summary"@,
        repeat_char('=', 60),
        "Pass: "@ + decimal(s.pass as nat) + "  Fail: "@ + decimal(s.fail as nat) + "  Manual: "@
            + decimal(s.manual as nat) + "  Error: "@ + decimal(s.error as nat),
        seq![],
        "Document-level findings"@,
        repeat_char('-', 60),
    ] + found + (if found.len() == 0 {
        seq!["(none - all findings are highlighted in place)"@]
    } else {
        seq![]
    }) + seq![seq![], "In-place findings are highlighted and annotated on their pages."@]
}

fn add_line(lines: &mut Vec<Vec<char>>, line: Vec<char>)
    ensures
        char_views(final(lines)@) == char_views(old(lines)@).push(line@),
{
    lines.push(line);
    assert(char_views(lines@) =~= char_views(old(lines)@).push(line@));
}

fn ascii_chars(s: &str) -> (r: Vec<char>)
    ensures
        r@ == ascii_text(s@),
{
    let a = ascii_only(s);
    chars_of(a.as_str())
}

fn finding_lines_exec(lines: &mut Vec<Vec<char>>, r: &CheckResult) -> (listed_here: bool)
    ensures
        listed_here == listed(r@),
        listed_here ==> char_views(final(lines)@) == char_views(old(lines)@) + finding_lines(r@),
        !listed_here ==> char_views(final(lines)@) == char_views(old(lines)@),
{
    let ghost evs = r@.evidence;
    let mut doc: Vec<usize> = Vec::new();
    let mut j: usize = 0;
    while j < r.evidence.len()
        invariant
            j <= r.evidence.len(),
            evs == r@.evidence,
            doc@.len() == boxless(evs.subrange(0, j as int)).len(),
            forall|k: int|
                0 <= k < doc@.len() ==> #[trigger] doc@[k] < r.evidence@.len() && evs[doc@[k] as int]
                    == boxless(evs.subrange(0, j as int))[k],
        decreases r.evidence.len() - j,
    {
        let ghost pre = evs.subrange(0, j as int);
        let ghost post = evs.subrange(0, j + 1);
        assert(post.drop_last() =~= pre);
        assert(post.last() == evs[j as int]);
        if r.evidence[j].bbox.is_none() {
            doc.push(j);
            assert(boxless(post) == boxless(pre).push(evs[j as int]));
            assert forall|k: int| 0 <= k < doc@.len() implies #[trigger] doc@[k] < r.evidence@.len()
                && evs[doc@[k] as int] == boxless(post)[k] by {
                if k < doc@.len() - 1 {
                    assert(boxless(post)[k] == boxless(pre)[k]);
                }
            }
        } else {
            assert(boxless(post) == boxless(pre));
        }
        j = j + 1;
    }
    assert(evs.subrange(0, r.evidence.len() as int) =~= evs);
    if r.status == Status::Pass || doc.len() == 0 {
        return false;
    }
    let ghost start = char_views(lines@);
    let label = r.status.as_str();
    let mut head = chars_of("[");
    append_chars(&mut head, &chars_of(label));
    append_chars(&mut head, &chars_of("] "));
    append_chars(&mut head, &chars_of(r.check_id.as_str()));
    add_line(lines, head);
    let dc = chars_of(r.detail.as_str());
    if dc.len() > 0 {
        let mut d = chars_of("    ");
        append_chars(&mut d, &ascii_chars(r.detail.as_str()));
        add_line(lines, d);
    }
    let ghost mid = char_views(lines@);
    assert(mid == start + (seq!["["@ + status_label(r@.status) + "] "@ + r@.check_id] + (if r@.detail.len()
        > 0 {
        seq!["    "@ + ascii_text(r@.detail)]
    } else {
        seq![]
    })));
    let ghost bl = boxless(evs);
    let mut k: usize = 0;
    while k < doc.len()
        invariant
            k <= doc.len(),
            evs == r@.evidence,
            bl == boxless(evs),
            doc@.len() == bl.len(),
            forall|m: int| 0 <= m < doc@.len() ==> #[trigger] doc@[m] < r.evidence@.len() && evs[doc@[m] as int] == bl[m],
            char_views(lines@) == mid + bl.subrange(0, k as int).map_values(|e: EvidenceView| boxless_line(e)),
        decreases doc.len() - k,
    {
        let idx = doc[k];
        assert(doc@[k as int] < r.evidence@.len());
        assert(evs[idx as int] == bl[k as int]);
        let e = &r.evidence[idx];
        let mut line = chars_of("    page ");
        append_chars(&mut line, &decimal_exec(e.page));
        append_chars(&mut line, &chars_of("  "));
        let ex = match &e.excerpt {
            Some(x) => ascii_chars(x.as_str()),
            None => Vec::new(),
        };
        append_chars(&mut line, &ex);
        assert(line@ == boxless_line(bl[k as int]));
        add_line(lines, line);
        assert(bl.subrange(0, k + 1).map_values(|e: EvidenceView| boxless_line(e)) =~= bl.subrange(
            0,
            k as int,
        ).map_values(|e: EvidenceView| boxless_line(e)).push(boxless_line(bl[k as int])));
        k = k + 1;
    }
    assert(bl.subrange(0, doc.len() as int) =~= bl);
    assert(char_views(lines@) =~= start + finding_lines(r@));
    true
}

/// The text of the summary page prepended to an annotated PDF: the counts,
/// then the findings whose evidence has no box on a page.
pub fn summary_text(report: &Report) -> (r: String)
    ensures
        r@ == join_with(summary_lines(result_views(report.results@), report.summary), "\n"@),
{
    let ghost rv = result_views(report.results@);
    let s = &report.summary;
    let mut lines: Vec<Vec<char>> = Vec::new();
    add_line(&mut lines, chars_of("ScholarPress Format Check - Annotated Summary"));
    add_line(&mut lines, repeat_exec('=', 60));
    let mut c = chars_of("Pass: ");
    append_chars(&mut c, &decimal_exec(s.pass));
    append_chars(&mut c, &chars_of("  Fail: "));
    append_chars(&mut c, &decimal_exec(s.fail));
    append_chars(&mut c, &chars_of("  Manual: "));
    append_chars(&mut c, &decimal_exec(s.manual));
    append_chars(&mut c, &chars_of("  Error: "));
    append_chars(&mut c, &decimal_exec(s.error));
    add_line(&mut lines, c);
    add_line(&mut lines, Vec::new());
    add_line(&mut lines, chars_of("Document-level findings"));
    add_line(&mut lines, repeat_exec('-', 60));
    let ghost head = char_views(lines@);
    let mut count: usize = 0;
    let mut i: usize = 0;
    while i < report.results.len()
        invariant
            i <= report.results.len(),
            rv == result_views(report.results@),
            char_views(lines@) == head + findings_lines(rv.subrange(0, i as int)),
            (count == 0) == (findings_lines(rv.subrange(0, i as int)).len() == 0),
            count <= i,
        decreases report.results.len() - i,
    {
        assert(rv.subrange(0, i + 1).drop_last() =~= rv.subrange(0, i as int));
        let listed_here = finding_lines_exec(&mut lines, &report.results[i]);
        if listed_here {
            count = count + 1;
            assert(head + findings_lines(rv.subrange(0, i + 1)) =~= head + findings_lines(
                rv.subrange(0, i as int),
            ) + finding_lines(rv[i as int]));
        }
        i = i + 1;
    }
    assert(rv.subrange(0, report.results.len() as int) =~= rv);
    if count == 0 {
        add_line(&mut lines, chars_of("(none - all findings are highlighted in place)"));
    }
    add_line(&mut lines, Vec::new());
    add_line(&mut lines, chars_of("In-place findings are highlighted and annotated on their pages."));
    assert(char_views(lines@) =~= summary_lines(rv, report.summary));
    let text = join_with_exec(&lines, &chars_of("\n"));
    string_of(&text)
}

/// An evidence item marked in place: of a result that is not a pass, with a
/// box, on one of the document's `page_count` pages (pages count from 1).
pub open spec fn marked(r: CheckResultView, e: EvidenceView, page_count: nat) -> bool {
    r.status != Status::Pass && e.bbox is Some && 1 <= e.page && e.page <= page_count
}

/// The (result, evidence) positions marked in place, results in order and
/// the evidence of each in order.
pub open spec fn marks_of(rs: Seq<CheckResultView>, page_count: nat) -> Seq<(int, int)> {
    marks_upto(rs, page_count, rs.len() as int)
}

/// The marks among the first `i` results.
pub open spec fn marks_upto(rs: Seq<CheckResultView>, page_count: nat, i: int) -> Seq<(int, int)>
    decreases i,
{
    if i <= 0 || i > rs.len() {
        seq![]
    } else {
        marks_upto(rs, page_count, i - 1) + marks_in(rs, page_count, i - 1, rs[i - 1].evidence.len() as int)
    }
}

/// The marks among the first `j` evidence items of result `i`.
pub open spec fn marks_in(rs: Seq<CheckResultView>, page_count: nat, i: int, j: int) -> Seq<(int, int)>
    decreases j,
{
    if j <= 0 || j > rs[i].evidence.len() {
        seq![]
    } else if marked(rs[i], rs[i].evidence[j - 1], page_count) {
        marks_in(rs, page_count, i, j - 1).push((i, j - 1))
    } else {
        marks_in(rs, page_count, i, j - 1)
    }
}

/// The positions of the evidence items to highlight and annotate in place.
pub fn annotation_targets(report: &Report, page_count: usize) -> (r: Vec<(usize, usize)>)
    ensures
        r@.map_values(|p: (usize, usize)| (p.0 as int, p.1 as int)) == marks_of(
            result_views(report.results@),
            page_count as nat,
        ),
{
    let ghost rv = result_views(report.results@);
    let mut out: Vec<(usize, usize)> = Vec::new();
    let mut i: usize = 0;
    assert(out@.map_values(|p: (usize, usize)| (p.0 as int, p.1 as int)) =~= marks_upto(rv, page_count as nat, 0));
    while i < report.results.len()
        invariant
            i <= report.results.len(),
            rv == result_views(report.results@),
            out@.map_values(|p: (usize, usize)| (p.0 as int, p.1 as int)) == marks_upto(rv, page_count as nat, i as int),
        decreases report.results.len() - i,
    {
        let r = &report.results[i];
        let ghost base = out@.map_values(|p: (usize, usize)| (p.0 as int, p.1 as int));
        let mut j: usize = 0;
        assert(base + marks_in(rv, page_count as nat, i as int, 0) =~= base);
        while j < r.evidence.len()
            invariant
                i < report.results.len(),
                j <= r.evidence.len(),
                r == report.results@[i as int],
                rv == result_views(report.results@),
                out@.map_values(|p: (usize, usize)| (p.0 as int, p.1 as int)) == base + marks_in(
                    rv,
                    page_count as nat,
                    i as int,
                    j as int,
                ),
            decreases r.evidence.len() - j,
        {
            let e = &r.evidence[j];
            assert(rv[i as int].evidence[j as int] == e@);
            if r.status != Status::Pass && e.bbox.is_some() && 1 <= e.page && e.page <= page_count {
                let ghost before = out@.map_values(|p: (usize, usize)| (p.0 as int, p.1 as int));
                out.push((i, j));
                assert(out@.map_values(|p: (usize, usize)| (p.0 as int, p.1 as int)) =~= before.push(
                    (i as int, j as int),
                ));
            }
            j = j + 1;
        }
        i = i + 1;
    }
    out
}

/// The ASCII rendering keeps the length and leaves only ASCII characters,
/// and it changes nothing in a text that is already ASCII.
pub proof fn ascii_text_is_ascii(s: Seq<char>)
    ensures
        ascii_text(s).len() == s.len(),
        forall|i: int| 0 <= i < s.len() ==> (#[trigger] ascii_text(s)[i] as u32) < 128,
        (forall|i: int| 0 <= i < s.len() ==> (#[trigger] s[i] as u32) < 128) ==> ascii_text(s) == s,
{
    assert forall|i: int| 0 <= i < s.len() implies (#[trigger] ascii_text(s)[i] as u32) < 128 by {
        assert(ascii_text(s)[i] == ascii_char(s[i]));
        assert(('?' as u32) < 128);
    }
    if forall|i: int| 0 <= i < s.len() ==> (#[trigger] s[i] as u32) < 128 {
        assert(ascii_text(s) =~= s);
    }
}

} // verus!
