//! Calibration over a corpus: per-check tallies of outcomes across documents,
//! the systemic-failure counts, and the plain-text calibration report.

use vstd::prelude::*;
use crate::checkers::{CheckResult, CheckResultView, Status};
use crate::report::{result_views, Summary};
use crate::text::{
    append_chars, char_views, chars_of, decimal, decimal_exec, join_with, join_with_exec,
    repeat_char, repeat_exec, string_of,
};

verus! {

/// How one check fared across the corpus.
#[derive(Debug, Clone)]
pub struct CheckFrequency {
    pub check_id: String,
    pub category: String,
    pub pass_count: usize,
    pub fail_count: usize,
    pub manual_count: usize,
    pub error_count: usize,
    pub total_documents: usize,
    pub fail_documents: Vec<String>,
    pub fail_details: Vec<String>,
}

/// A check frequency as plain values.
pub struct FrequencyView {
    pub check_id: Seq<char>,
    pub category: Seq<char>,
    pub pass_count: nat,
    pub fail_count: nat,
    pub manual_count: nat,
    pub error_count: nat,
    pub total_documents: nat,
    pub fail_documents: Seq<Seq<char>>,
    pub fail_details: Seq<Seq<char>>,
}

/// The views of a list of strings.
pub open spec fn string_views(v: Seq<String>) -> Seq<Seq<char>> {
    v.map_values(|s: String| s@)
}

impl View for CheckFrequency {
    type V = FrequencyView;

    open spec fn view(&self) -> FrequencyView {
        FrequencyView {
            check_id: self.check_id@,
            category: self.category@,
            pass_count: self.pass_count as nat,
            fail_count: self.fail_count as nat,
            manual_count: self.manual_count as nat,
            error_count: self.error_count as nat,
            total_documents: self.total_documents as nat,
            fail_documents: string_views(self.fail_documents@),
            fail_details: string_views(self.fail_details@),
        }
    }
}

/// The results of one document of the corpus.
#[derive(Debug, Clone)]
pub struct DocumentResult {
    pub document: String,
    pub results: Vec<CheckResult>,
    pub summary: Summary,
}

/// The outcome of a calibration run.
#[derive(Debug, Clone)]
pub struct CalibrationReport {
    pub spec_path: String,
    pub corpus_path: String,
    pub documents: Vec<String>,
    pub document_results: Vec<DocumentResult>,
    pub check_frequencies: Vec<CheckFrequency>,
}

/// The categories whose checks run automatically.
pub open spec fn is_automated(category: Seq<char>) -> bool {
    category == "layout"@ || category == "typography"@ || category == "structure"@ || category
        == "content"@
}

pub fn is_automated_category(category: &str) -> (r: bool)
    ensures
        r == is_automated(category@),
{
    let c = chars_of(category);
    crate::text::chars_eq(&c, &chars_of("layout")) || crate::text::chars_eq(&c, &chars_of("typography"))
        || crate::text::chars_eq(&c, &chars_of("structure")) || crate::text::chars_eq(
        &c,
        &chars_of("content"),
    )
}

/// At least half of the documents failed the check (the 50% threshold).
pub open spec fn fails_half(fail: nat, total: nat) -> bool {
    2 * fail >= total
}

/// An automated check that failed on at least half of the documents it ran on.
pub open spec fn is_systemic(f: FrequencyView) -> bool {
    is_automated(f.category) && f.total_documents > 0 && fails_half(f.fail_count, f.total_documents)
        && f.fail_count >= 1
}

/// An automated check that failed at least once.
pub open spec fn is_automated_failure(f: FrequencyView) -> bool {
    is_automated(f.category) && f.fail_count > 0
}

/// Number of frequencies that are systemic failures.
pub open spec fn systemic_count(fs: Seq<FrequencyView>) -> nat
    decreases fs.len(),
{
    if fs.len() == 0 {
        0
    } else {
        systemic_count(fs.drop_last()) + if is_systemic(fs.last()) {
            1nat
        } else {
            0nat
        }
    }
}

/// Number of frequencies that are automated failures.
pub open spec fn automated_failure_count(fs: Seq<FrequencyView>) -> nat
    decreases fs.len(),
{
    if fs.len() == 0 {
        0
    } else {
        automated_failure_count(fs.drop_last()) + if is_automated_failure(fs.last()) {
            1nat
        } else {
            0nat
        }
    }
}

/// The views of a list of frequencies.
pub open spec fn frequency_views(fs: Seq<CheckFrequency>) -> Seq<FrequencyView> {
    fs.map_values(|f: CheckFrequency| f@)
}

/// Every systemic failure is an automated failure, so there are never more
/// systemic failures than automated failures.
pub proof fn systemic_within_automated(fs: Seq<FrequencyView>)
    ensures
        systemic_count(fs) <= automated_failure_count(fs),
    decreases fs.len(),
{
    if fs.len() > 0 {
        systemic_within_automated(fs.drop_last());
    }
}

proof fn lemma_counts_bounded(fs: Seq<FrequencyView>)
    ensures
        systemic_count(fs) <= fs.len(),
        automated_failure_count(fs) <= fs.len(),
    decreases fs.len(),
{
    if fs.len() > 0 {
        lemma_counts_bounded(fs.drop_last());
    }
}

fn systemic_exec(f: &CheckFrequency) -> (r: bool)
    ensures
        r == is_systemic(f@),
{
    is_automated_category(f.category.as_str()) && f.total_documents > 0 && (f.fail_count as u128) * 2
        >= f.total_documents as u128 && f.fail_count >= 1
}

impl CalibrationReport {
    /// Number of automated checks that failed on at least half of their documents.
    pub fn systemic_fail_count(&self) -> (r: usize)
        ensures
            r == systemic_count(frequency_views(self.check_frequencies@)),
    {
        let ghost fv = frequency_views(self.check_frequencies@);
        let mut n: usize = 0;
        let mut i: usize = 0;
        while i < self.check_frequencies.len()
            invariant
                i <= self.check_frequencies.len(),
                fv == frequency_views(self.check_frequencies@),
                n == systemic_count(fv.subrange(0, i as int)),
            decreases self.check_frequencies.len() - i,
        {
            proof {
                assert(fv.subrange(0, i + 1).drop_last() =~= fv.subrange(0, i as int));
                lemma_counts_bounded(fv.subrange(0, i as int));
            }
            if systemic_exec(&self.check_frequencies[i]) {
                n = n + 1;
            }
            i = i + 1;
        }
        assert(fv.subrange(0, self.check_frequencies.len() as int) =~= fv);
        n
    }

    /// Number of automated checks that failed at least once.
    pub fn automated_fail_count(&self) -> (r: usize)
        ensures
            r == automated_failure_count(frequency_views(self.check_frequencies@)),
    {
        let ghost fv = frequency_views(self.check_frequencies@);
        let mut n: usize = 0;
        let mut i: usize = 0;
        while i < self.check_frequencies.len()
            invariant
                i <= self.check_frequencies.len(),
                fv == frequency_views(self.check_frequencies@),
                n == automated_failure_count(fv.subrange(0, i as int)),
            decreases self.check_frequencies.len() - i,
        {
            proof {
                assert(fv.subrange(0, i + 1).drop_last() =~= fv.subrange(0, i as int));
                lemma_counts_bounded(fv.subrange(0, i as int));
            }
            let f = &self.check_frequencies[i];
            if is_automated_category(f.category.as_str()) && f.fail_count > 0 {
                n = n + 1;
            }
            i = i + 1;
        }
        assert(fv.subrange(0, self.check_frequencies.len() as int) =~= fv);
        n
    }
}

/// A frequency with every count at zero.
pub open spec fn fresh_frequency(id: Seq<char>, category: Seq<char>) -> FrequencyView {
    FrequencyView {
        check_id: id,
        category,
        pass_count: 0,
        fail_count: 0,
        manual_count: 0,
        error_count: 0,
        total_documents: 0,
        fail_documents: seq![],
        fail_details: seq![],
    }
}

/// Index of the first frequency for check `id`.
pub open spec fn frequency_index(fs: Seq<FrequencyView>, id: Seq<char>) -> Option<int>
    decreases fs.len(),
{
    if fs.len() == 0 {
        None
    } else {
        match frequency_index(fs.drop_last(), id) {
            Some(k) => Some(k),
            None => if fs.last().check_id == id {
                Some(fs.len() - 1)
            } else {
                None
            },
        }
    }
}

/// The frequencies for the checks of a spec, given as (id, category): one
/// per id in order of first appearance; a later check with the same id
/// replaces the entry.
pub open spec fn frequencies_from(checks: Seq<(Seq<char>, Seq<char>)>) -> Seq<FrequencyView>
    decreases checks.len(),
{
    if checks.len() == 0 {
        seq![]
    } else {
        let r = frequencies_from(checks.drop_last());
        let (id, cat) = checks.last();
        match frequency_index(r, id) {
            Some(k) => r.update(k, fresh_frequency(id, cat)),
            None => r.push(fresh_frequency(id, cat)),
        }
    }
}

/// No two frequencies are for the same check.
pub open spec fn ids_distinct(fs: Seq<FrequencyView>) -> bool {
    forall|a: int, b: int| 0 <= a < b < fs.len() ==> fs[a].check_id != fs[b].check_id
}

proof fn lemma_index_found(fs: Seq<FrequencyView>, id: Seq<char>, k: int)
    requires
        ids_distinct(fs),
        0 <= k < fs.len(),
        fs[k].check_id == id,
    ensures
        frequency_index(fs, id) == Some(k),
    decreases fs.len(),
{
    if k < fs.len() - 1 {
        lemma_index_found(fs.drop_last(), id, k);
    } else {
        lemma_index_absent(fs.drop_last(), id);
    }
}

proof fn lemma_index_in_range(fs: Seq<FrequencyView>, id: Seq<char>)
    ensures
        frequency_index(fs, id) matches Some(k) ==> 0 <= k < fs.len(),
    decreases fs.len(),
{
    if fs.len() > 0 {
        lemma_index_in_range(fs.drop_last(), id);
    }
}

proof fn lemma_index_absent(fs: Seq<FrequencyView>, id: Seq<char>)
    requires
        forall|k: int| 0 <= k < fs.len() ==> fs[k].check_id != id,
    ensures
        frequency_index(fs, id) is None,
    decreases fs.len(),
{
    if fs.len() > 0 {
        lemma_index_absent(fs.drop_last(), id);
    }
}

fn new_frequency(id: &String, category: &String) -> (f: CheckFrequency)
    ensures
        f@ == fresh_frequency(id@, category@),
{
    let f = CheckFrequency {
        check_id: id.clone(),
        category: category.clone(),
        pass_count: 0,
        fail_count: 0,
        manual_count: 0,
        error_count: 0,
        total_documents: 0,
        fail_documents: Vec::new(),
        fail_details: Vec::new(),
    };
    assert(f@.fail_documents =~= seq![]);
    assert(f@.fail_details =~= seq![]);
    f
}

fn find_frequency(fs: &Vec<CheckFrequency>, id: &str) -> (r: Option<usize>)
    ensures
        match r {
            Some(k) => k < fs@.len() && fs@[k as int].check_id@ == id@,
            None => forall|k: int| 0 <= k < fs@.len() ==> fs@[k].check_id@ != id@,
        },
{
    let idc = chars_of(id);
    let mut i: usize = 0;
    while i < fs.len()
        invariant
            i <= fs.len(),
            idc@ == id@,
            forall|k: int| 0 <= k < i ==> fs@[k].check_id@ != id@,
        decreases fs.len() - i,
    {
        let c = chars_of(fs[i].check_id.as_str());
        if crate::text::chars_eq(&c, &idc) {
            return Some(i);
        }
        i = i + 1;
    }
    None
}

/// One zeroed frequency per check of the spec, given as (id, category).
pub fn frequencies_for(checks: &[(String, String)]) -> (r: Vec<CheckFrequency>)
    ensures
        frequency_views(r@) == frequencies_from(checks@.map_values(|c: (String, String)| (c.0@, c.1@))),
        ids_distinct(frequency_views(r@)),
        forall|k: int| 0 <= k < r@.len() ==> tally_consistent(#[trigger] r@[k]@),
{
    let ghost cv = checks@.map_values(|c: (String, String)| (c.0@, c.1@));
    let mut fs: Vec<CheckFrequency> = Vec::new();
    let mut i: usize = 0;
    assert(frequency_views(fs@) =~= frequencies_from(cv.subrange(0, 0)));
    while i < checks.len()
        invariant
            i <= checks.len(),
            cv == checks@.map_values(|c: (String, String)| (c.0@, c.1@)),
            frequency_views(fs@) == frequencies_from(cv.subrange(0, i as int)),
            ids_distinct(frequency_views(fs@)),
        decreases checks.len() - i,
    {
        assert(cv.subrange(0, i + 1).drop_last() =~= cv.subrange(0, i as int));
        let ghost before = frequency_views(fs@);
        let (ref id, ref cat) = checks[i];
        let f = new_frequency(id, cat);
        match find_frequency(&fs, id.as_str()) {
            Some(k) => {
                proof {
                    lemma_index_found(before, id@, k as int);
                }
                fs.set(k, f);
                assert(frequency_views(fs@) =~= before.update(k as int, fresh_frequency(id@, cat@)));
                assert forall|a: int, b: int| 0 <= a < b < fs@.len() implies frequency_views(fs@)[a].check_id
                    != frequency_views(fs@)[b].check_id by {
                    assert(frequency_views(fs@)[a].check_id == before[a].check_id);
                    assert(frequency_views(fs@)[b].check_id == before[b].check_id);
                }
            },
            None => {
                proof {
                    lemma_index_absent(before, id@);
                }
                fs.push(f);
                assert(frequency_views(fs@) =~= before.push(fresh_frequency(id@, cat@)));
                assert forall|a: int, b: int| 0 <= a < b < fs@.len() implies frequency_views(fs@)[a].check_id
                    != frequency_views(fs@)[b].check_id by {
                    if b == fs@.len() - 1 {
                        assert(before[a].check_id != id@);
                    }
                }
            },
        }
        i = i + 1;
    }
    assert(cv.subrange(0, checks.len() as int) =~= cv);
    proof {
        lemma_fresh_tallies(cv);
        assert forall|k: int| 0 <= k < fs@.len() implies tally_consistent(#[trigger] fs@[k]@) by {
            assert(frequency_views(fs@)[k] == fs@[k]@);
        }
    }
    fs
}

proof fn lemma_fresh_tallies(checks: Seq<(Seq<char>, Seq<char>)>)
    ensures
        forall|k: int| 0 <= k < frequencies_from(checks).len() ==> tally_consistent(#[trigger] frequencies_from(checks)[k]),
    decreases checks.len(),
{
    if checks.len() > 0 {
        lemma_fresh_tallies(checks.drop_last());
        let r = frequencies_from(checks.drop_last());
        let (id, cat) = checks.last();
        lemma_index_in_range(r, id);
        assert(tally_consistent(fresh_frequency(id, cat)));
        assert forall|k: int| 0 <= k < frequencies_from(checks).len() implies tally_consistent(
            #[trigger] frequencies_from(checks)[k],
        ) by {
            match frequency_index(r, id) {
                Some(j) => {
                    if k != j {
                        assert(frequencies_from(checks)[k] == r[k]);
                    }
                },
                None => {
                    if k < r.len() {
                        assert(frequencies_from(checks)[k] == r[k]);
                    }
                },
            }
        }
    }
}

/// A frequency after one result of document `filename`: a result for this
/// check counts one more document and its status; a failure also records the
/// document and "[document] detail".
pub open spec fn recorded(f: FrequencyView, filename: Seq<char>, r: CheckResultView) -> FrequencyView {
    if r.check_id != f.check_id {
        f
    } else {
        let g = FrequencyView { total_documents: f.total_documents + 1, ..f };
        match r.status {
            Status::Pass => FrequencyView { pass_count: f.pass_count + 1, ..g },
            Status::Fail => FrequencyView {
                fail_count: f.fail_count + 1,
                fail_documents: f.fail_documents.push(filename),
                fail_details: f.fail_details.push("["@ + filename + "] "@ + r.detail),
                ..g
            },
            Status::Manual => FrequencyView { manual_count: f.manual_count + 1, ..g },
            Status::Error => FrequencyView { error_count: f.error_count + 1, ..g },
        }
    }
}

/// A frequency after all results of document `filename`, in order.
pub open spec fn recorded_all(f: FrequencyView, filename: Seq<char>, rs: Seq<CheckResultView>) -> FrequencyView
    decreases rs.len(),
{
    if rs.len() == 0 {
        f
    } else {
        recorded(recorded_all(f, filename, rs.drop_last()), filename, rs.last())
    }
}

/// Every count of the frequency leaves room for `n` more.
pub open spec fn room_for(f: FrequencyView, n: nat) -> bool {
    &&& f.pass_count + n <= usize::MAX
    &&& f.fail_count + n <= usize::MAX
    &&& f.manual_count + n <= usize::MAX
    &&& f.error_count + n <= usize::MAX
    &&& f.total_documents + n <= usize::MAX
}

proof fn lemma_recorded_growth(f: FrequencyView, filename: Seq<char>, rs: Seq<CheckResultView>)
    ensures
        recorded_all(f, filename, rs).check_id == f.check_id,
        recorded_all(f, filename, rs).category == f.category,
        recorded_all(f, filename, rs).pass_count <= f.pass_count + rs.len(),
        recorded_all(f, filename, rs).fail_count <= f.fail_count + rs.len(),
        recorded_all(f, filename, rs).manual_count <= f.manual_count + rs.len(),
        recorded_all(f, filename, rs).error_count <= f.error_count + rs.len(),
        recorded_all(f, filename, rs).total_documents <= f.total_documents + rs.len(),
    decreases rs.len(),
{
    if rs.len() > 0 {
        lemma_recorded_growth(f, filename, rs.drop_last());
    }
}

fn record_one(f: CheckFrequency, filename: &str, r: &CheckResult) -> (g: CheckFrequency)
    requires
        f.check_id@ == r.check_id@,
        room_for(f@, 1),
    ensures
        g@ == recorded(f@, filename@, r@),
{
    let CheckFrequency {
        check_id,
        category,
        pass_count,
        fail_count,
        manual_count,
        error_count,
        total_documents,
        mut fail_documents,
        mut fail_details,
    } = f;
    let total_documents = total_documents + 1;
    let ghost docs = string_views(fail_documents@);
    let ghost details = string_views(fail_details@);
    match r.status {
        Status::Pass => CheckFrequency {
            check_id,
            category,
            pass_count: pass_count + 1,
            fail_count,
            manual_count,
            error_count,
            total_documents,
            fail_documents,
            fail_details,
        },
        Status::Fail => {
            fail_documents.push(string_of(&chars_of(filename)));
            let mut d = chars_of("[");
            append_chars(&mut d, &chars_of(filename));
            append_chars(&mut d, &chars_of("] "));
            append_chars(&mut d, &chars_of(r.detail.as_str()));
            let ds = string_of(&d);
            fail_details.push(ds);
            assert(string_views(fail_documents@) =~= docs.push(filename@));
            assert(string_views(fail_details@) =~= details.push(d@));
            CheckFrequency {
                check_id,
                category,
                pass_count,
                fail_count: fail_count + 1,
                manual_count,
                error_count,
                total_documents,
                fail_documents,
                fail_details,
            }
        },
        Status::Manual => CheckFrequency {
            check_id,
            category,
            pass_count,
            fail_count,
            manual_count: manual_count + 1,
            error_count,
            total_documents,
            fail_documents,
            fail_details,
        },
        Status::Error => CheckFrequency {
            check_id,
            category,
            pass_count,
            fail_count,
            manual_count,
            error_count: error_count + 1,
            total_documents,
            fail_documents,
            fail_details,
        },
    }
}

/// Tallies the results of document `filename` into the frequencies of their checks.
pub fn record_results(freqs: &mut Vec<CheckFrequency>, filename: &str, results: &[CheckResult])
    requires
        ids_distinct(frequency_views(old(freqs)@)),
        forall|k: int| 0 <= k < old(freqs)@.len() ==> room_for(#[trigger] old(freqs)@[k]@, results@.len() as nat),
    ensures
        final(freqs)@.len() == old(freqs)@.len(),
        ids_distinct(frequency_views(final(freqs)@)),
        forall|k: int|
            0 <= k < final(freqs)@.len() ==> (#[trigger] final(freqs)@[k])@ == recorded_all(
                old(freqs)@[k]@,
                filename@,
                result_views(results@),
            ),
        forall|k: int|
            0 <= k < final(freqs)@.len() && tally_consistent(old(freqs)@[k]@) ==> tally_consistent(
                #[trigger] final(freqs)@[k]@,
            ),
{
    let ghost rv = result_views(results@);
    let ghost start = frequency_views(freqs@);
    let mut i: usize = 0;
    while i < results.len()
        invariant
            i <= results.len(),
            rv == result_views(results@),
            start.len() == freqs@.len(),
            ids_distinct(start),
            forall|k: int| 0 <= k < start.len() ==> room_for(#[trigger] start[k], results@.len() as nat),
            forall|k: int|
                0 <= k < freqs@.len() ==> (#[trigger] freqs@[k])@ == recorded_all(
                    start[k],
                    filename@,
                    rv.subrange(0, i as int),
                ),
        decreases results.len() - i,
    {
        assert(rv.subrange(0, i + 1).drop_last() =~= rv.subrange(0, i as int));
        let r = &results[i];
        match find_frequency(freqs, r.check_id.as_str()) {
            Some(k) => {
                proof {
                    lemma_recorded_growth(start[k as int], filename@, rv.subrange(0, i as int));
                }
                let f = freqs.remove(k);
                let g = record_one(f, filename, r);
                freqs.insert(k, g);
                assert forall|m: int| 0 <= m < freqs@.len() implies (#[trigger] freqs@[m])@
                    == recorded_all(start[m], filename@, rv.subrange(0, i + 1)) by {
                    if m != k {
                        lemma_recorded_growth(start[m], filename@, rv.subrange(0, i as int));
                        assert(start[m].check_id != start[k as int].check_id);
                    }
                }
            },
            None => {
                assert forall|m: int| 0 <= m < freqs@.len() implies (#[trigger] freqs@[m])@
                    == recorded_all(start[m], filename@, rv.subrange(0, i + 1)) by {
                    lemma_recorded_growth(start[m], filename@, rv.subrange(0, i as int));
                }
            },
        }
        i = i + 1;
    }
    assert(rv.subrange(0, results.len() as int) =~= rv);
    assert forall|a: int, b: int|
        0 <= a < b < freqs@.len() implies frequency_views(freqs@)[a].check_id != frequency_views(
        freqs@,
    )[b].check_id by {
        lemma_recorded_growth(start[a], filename@, rv);
        lemma_recorded_growth(start[b], filename@, rv);
    }
    assert forall|k: int| 0 <= k < freqs@.len() && tally_consistent(start[k]) implies tally_consistent(
        #[trigger] freqs@[k]@,
    ) by {
        recording_keeps_tally_consistent(start[k], filename@, rv);
    }
}

/// The non-zero counts of a summary, as "N PASS", "N FAIL", "N MANUAL", "N ERROR".
pub open spec fn summary_parts(s: Summary) -> Seq<Seq<char>> {
    (if s.pass > 0 {
        seq![decimal(s.pass as nat) + " PASS"@]
    } else {
        seq![]
    }) + (if s.fail > 0 {
        seq![decimal(s.fail as nat) + " FAIL"@]
    } else {
        seq![]
    }) + (if s.manual > 0 {
        seq![decimal(s.manual as nat) + " MANUAL"@]
    } else {
        seq![]
    }) + (if s.error > 0 {
        seq![decimal(s.error as nat) + " ERROR"@]
    } else {
        seq![]
    })
}

/// The summary line of one document.
pub open spec fn document_line(name: Seq<char>, s: Summary) -> Seq<char> {
    "  "@ + name + ": "@ + join_with(summary_parts(s), ", "@)
}

/// The summary lines of the documents, in order.
pub open spec fn document_lines(ds: Seq<DocumentResult>) -> Seq<Seq<char>>
    decreases ds.len(),
{
    if ds.len() == 0 {
        seq![]
    } else {
        document_lines(ds.drop_last()).push(document_line(ds.last().document@, ds.last().summary))
    }
}

/// The corpus listing: one "  - name" line per document.
pub open spec fn listing_lines(names: Seq<Seq<char>>) -> Seq<Seq<char>> {
    names.map_values(|n: Seq<char>| "  - "@ + n)
}

/// "(numerator/denominator)".
pub open spec fn fraction(a: nat, b: nat) -> Seq<char> {
    "("@ + decimal(a) + "/"@ + decimal(b) + ")"@
}

/// The block of an automated check: heading, counts, status and failure details.
pub open spec fn automated_block(f: FrequencyView) -> Seq<Seq<char>> {
    seq![
        f.check_id + " ["@ + f.category + "]"@,
        "  PASS="@ + decimal(f.pass_count) + " FAIL="@ + decimal(f.fail_count) + " ERROR="@ + decimal(
            f.error_count,
        ),
    ] + (if f.fail_count > 0 {
        seq![
            if fails_half(f.fail_count, f.total_documents) {
                "  STATUS: SYSTEMIC "@ + fraction(f.fail_count, f.total_documents)
            } else {
                "  STATUS: isolated "@ + fraction(f.fail_count, f.total_documents)
            },
        ] + f.fail_details.map_values(|d: Seq<char>| "    "@ + d)
    } else {
        seq!["  STATUS: clean "@ + fraction(f.pass_count, f.total_documents)]
    }) + seq![seq![]]
}

/// The blocks of the automated checks, in order.
pub open spec fn automated_blocks(fs: Seq<FrequencyView>) -> Seq<Seq<char>>
    decreases fs.len(),
{
    if fs.len() == 0 {
        seq![]
    } else if is_automated(fs.last().category) {
        automated_blocks(fs.drop_last()) + automated_block(fs.last())
    } else {
        automated_blocks(fs.drop_last())
    }
}

/// The lines of the checks left to manual review, in order.
pub open spec fn manual_lines(fs: Seq<FrequencyView>) -> Seq<Seq<char>>
    decreases fs.len(),
{
    if fs.len() == 0 {
        seq![]
    } else if !is_automated(fs.last().category) {
        manual_lines(fs.drop_last()).push(
            fs.last().check_id + " ["@ + fs.last().category + "] \u{2014} MANUAL review "@ + fraction(
                fs.last().manual_count,
                fs.last().total_documents,
            ),
        )
    } else {
        manual_lines(fs.drop_last())
    }
}

/// All lines of the calibration report.
pub open spec fn calibration_lines(r: CalibrationReport) -> Seq<Seq<char>> {
    let rule = repeat_char('=', 70);
    let fs = frequency_views(r.check_frequencies@);
    let manual = manual_lines(fs);
    seq![
        rule,
        "CALIBRATION REPORT"@,
        rule,
        "Spec:     "@ + r.spec_path@,
        "Corpus:   "@ + r.corpus_path@ + " ("@ + decimal(r.documents@.len()) + " documents)"@,
        seq![],
        "Documents:"@,
    ] + listing_lines(string_views(r.documents@)) + seq![seq![], repeat_char('-', 70)] + document_lines(
        r.document_results@,
    ) + seq![seq![], rule, seq![], "AUTOMATED CHECKS"@, seq![]] + automated_blocks(fs) + (if manual.len()
        > 0 {
        seq![seq![], "MANUAL CHECKS"@, seq![]] + manual + seq![seq![]]
    } else {
        seq![]
    }) + seq![
        rule,
        "Automated checks with >=1 FAIL: "@ + decimal(automated_failure_count(fs)),
        "Systemic FAILs (>=50% of corpus): "@ + decimal(systemic_count(fs)),
        rule,
    ]
}

fn add_line(lines: &mut Vec<Vec<char>>, line: Vec<char>)
    ensures
        char_views(final(lines)@) == char_views(old(lines)@).push(line@),
{
    lines.push(line);
    assert(char_views(lines@) =~= char_views(old(lines)@).push(line@));
}

fn text_of(s: &str) -> (r: Vec<char>)
    ensures
        r@ == s@,
{
    chars_of(s)
}

fn concat2(a: &str, b: &[char]) -> (r: Vec<char>)
    ensures
        r@ == a@ + b@,
{
    let mut r = chars_of(a);
    append_chars(&mut r, b);
    r
}

fn fraction_exec(a: usize, b: usize) -> (r: Vec<char>)
    ensures
        r@ == fraction(a as nat, b as nat),
{
    let mut r = chars_of("(");
    append_chars(&mut r, &decimal_exec(a));
    append_chars(&mut r, &chars_of("/"));
    append_chars(&mut r, &decimal_exec(b));
    append_chars(&mut r, &chars_of(")"));
    r
}

fn document_line_exec(name: &str, s: &Summary) -> (r: Vec<char>)
    ensures
        r@ == document_line(name@, *s),
{
    let mut parts: Vec<Vec<char>> = Vec::new();
    let ghost p0 = char_views(parts@);
    if s.pass > 0 {
        let mut p = decimal_exec(s.pass);
        append_chars(&mut p, &chars_of(" PASS"));
        add_line(&mut parts, p);
    }
    if s.fail > 0 {
        let mut p = decimal_exec(s.fail);
        append_chars(&mut p, &chars_of(" FAIL"));
        add_line(&mut parts, p);
    }
    if s.manual > 0 {
        let mut p = decimal_exec(s.manual);
        append_chars(&mut p, &chars_of(" MANUAL"));
        add_line(&mut parts, p);
    }
    if s.error > 0 {
        let mut p = decimal_exec(s.error);
        append_chars(&mut p, &chars_of(" ERROR"));
        add_line(&mut parts, p);
    }
    assert(char_views(parts@) =~= summary_parts(*s));
    let mut r = chars_of("  ");
    append_chars(&mut r, &chars_of(name));
    append_chars(&mut r, &chars_of(": "));
    append_chars(&mut r, &join_with_exec(&parts, &chars_of(", ")));
    r
}

fn automated_block_exec(lines: &mut Vec<Vec<char>>, f: &CheckFrequency)
    ensures
        char_views(final(lines)@) == char_views(old(lines)@) + automated_block(f@),
{
    let ghost start = char_views(lines@);
    let mut h = chars_of(f.check_id.as_str());
    append_chars(&mut h, &chars_of(" ["));
    append_chars(&mut h, &chars_of(f.category.as_str()));
    append_chars(&mut h, &chars_of("]"));
    add_line(lines, h);
    let mut c = chars_of("  PASS=");
    append_chars(&mut c, &decimal_exec(f.pass_count));
    append_chars(&mut c, &chars_of(" FAIL="));
    append_chars(&mut c, &decimal_exec(f.fail_count));
    append_chars(&mut c, &chars_of(" ERROR="));
    append_chars(&mut c, &decimal_exec(f.error_count));
    add_line(lines, c);
    let ghost mid = char_views(lines@);
    if f.fail_count > 0 {
        let frac = fraction_exec(f.fail_count, f.total_documents);
        let st = if (f.fail_count as u128) * 2 >= f.total_documents as u128 {
            concat2("  STATUS: SYSTEMIC ", &frac)
        } else {
            concat2("  STATUS: isolated ", &frac)
        };
        add_line(lines, st);
        let ghost mid2 = char_views(lines@);
        let ghost details = f@.fail_details;
        let mut k: usize = 0;
        while k < f.fail_details.len()
            invariant
                k <= f.fail_details.len(),
                details == f@.fail_details,
                char_views(lines@) == mid2 + details.subrange(0, k as int).map_values(
                    |d: Seq<char>| "    "@ + d,
                ),
            decreases f.fail_details.len() - k,
        {
            let line = concat2("    ", &chars_of(f.fail_details[k].as_str()));
            add_line(lines, line);
            assert(details.subrange(0, k + 1).map_values(|d: Seq<char>| "    "@ + d) =~= details.subrange(
                0,
                k as int,
            ).map_values(|d: Seq<char>| "    "@ + d).push("    "@ + details[k as int]));
            k = k + 1;
        }
        assert(details.subrange(0, f.fail_details.len() as int) =~= details);
    } else {
        let frac = fraction_exec(f.pass_count, f.total_documents);
        add_line(lines, concat2("  STATUS: clean ", &frac));
    }
    add_line(lines, Vec::new());
    assert(char_views(lines@) =~= start + automated_block(f@));
}

/// Renders the calibration report as text.
pub fn format_text(report: &CalibrationReport) -> (r: String)
    ensures
        r@ == join_with(calibration_lines(*report), "\n"@),
{
    let ghost fs = frequency_views(report.check_frequencies@);
    let mut lines: Vec<Vec<char>> = Vec::new();
    add_line(&mut lines, repeat_exec('=', 70));
    add_line(&mut lines, text_of("CALIBRATION REPORT"));
    add_line(&mut lines, repeat_exec('=', 70));
    add_line(&mut lines, concat2("Spec:     ", &chars_of(report.spec_path.as_str())));
    let mut corpus = concat2("Corpus:   ", &chars_of(report.corpus_path.as_str()));
    append_chars(&mut corpus, &chars_of(" ("));
    append_chars(&mut corpus, &decimal_exec(report.documents.len()));
    append_chars(&mut corpus, &chars_of(" documents)"));
    add_line(&mut lines, corpus);
    add_line(&mut lines, Vec::new());
    add_line(&mut lines, text_of("Documents:"));
    let ghost names = string_views(report.documents@);
    let ghost a0 = char_views(lines@);
    let mut i: usize = 0;
    while i < report.documents.len()
        invariant
            i <= report.documents.len(),
            names == string_views(report.documents@),
            char_views(lines@) == a0 + listing_lines(names.subrange(0, i as int)),
        decreases report.documents.len() - i,
    {
        add_line(&mut lines, concat2("  - ", &chars_of(report.documents[i].as_str())));
        assert(listing_lines(names.subrange(0, i + 1)) =~= listing_lines(names.subrange(0, i as int)).push(
            "  - "@ + names[i as int],
        ));
        i = i + 1;
    }
    assert(names.subrange(0, report.documents.len() as int) =~= names);
    add_line(&mut lines, Vec::new());
    add_line(&mut lines, repeat_exec('-', 70));
    let ghost a1 = char_views(lines@);
    let mut j: usize = 0;
    while j < report.document_results.len()
        invariant
            j <= report.document_results.len(),
            char_views(lines@) == a1 + document_lines(report.document_results@.subrange(0, j as int)),
        decreases report.document_results.len() - j,
    {
        assert(report.document_results@.subrange(0, j + 1).drop_last() =~= report.document_results@.subrange(
            0,
            j as int,
        ));
        let d = &report.document_results[j];
        add_line(&mut lines, document_line_exec(d.document.as_str(), &d.summary));
        j = j + 1;
    }
    assert(report.document_results@.subrange(0, report.document_results.len() as int)
        =~= report.document_results@);
    add_line(&mut lines, Vec::new());
    add_line(&mut lines, repeat_exec('=', 70));
    add_line(&mut lines, Vec::new());
    add_line(&mut lines, text_of("AUTOMATED CHECKS"));
    add_line(&mut lines, Vec::new());
    let ghost a2 = char_views(lines@);
    let mut k: usize = 0;
    while k < report.check_frequencies.len()
        invariant
            k <= report.check_frequencies.len(),
            fs == frequency_views(report.check_frequencies@),
            char_views(lines@) == a2 + automated_blocks(fs.subrange(0, k as int)),
        decreases report.check_frequencies.len() - k,
    {
        assert(fs.subrange(0, k + 1).drop_last() =~= fs.subrange(0, k as int));
        let f = &report.check_frequencies[k];
        if is_automated_category(f.category.as_str()) {
            automated_block_exec(&mut lines, f);
            assert(a2 + automated_blocks(fs.subrange(0, k + 1)) =~= a2 + automated_blocks(
                fs.subrange(0, k as int),
            ) + automated_block(fs[k as int]));
        }
        k = k + 1;
    }
    assert(fs.subrange(0, report.check_frequencies.len() as int) =~= fs);
    let ghost a3 = char_views(lines@);
    let mut manual: Vec<Vec<char>> = Vec::new();
    let mut m: usize = 0;
    assert(char_views(manual@) =~= manual_lines(fs.subrange(0, 0)));
    while m < report.check_frequencies.len()
        invariant
            m <= report.check_frequencies.len(),
            fs == frequency_views(report.check_frequencies@),
            char_views(manual@) == manual_lines(fs.subrange(0, m as int)),
        decreases report.check_frequencies.len() - m,
    {
        assert(fs.subrange(0, m + 1).drop_last() =~= fs.subrange(0, m as int));
        let f = &report.check_frequencies[m];
        if !is_automated_category(f.category.as_str()) {
            let mut l = chars_of(f.check_id.as_str());
            append_chars(&mut l, &chars_of(" ["));
            append_chars(&mut l, &chars_of(f.category.as_str()));
            append_chars(&mut l, &chars_of("] \u{2014} MANUAL review "));
            append_chars(&mut l, &fraction_exec(f.manual_count, f.total_documents));
            add_line(&mut manual, l);
        }
        m = m + 1;
    }
    assert(fs.subrange(0, report.check_frequencies.len() as int) =~= fs);
    if manual.len() > 0 {
        add_line(&mut lines, Vec::new());
        add_line(&mut lines, text_of("MANUAL CHECKS"));
        add_line(&mut lines, Vec::new());
        let ghost a4 = char_views(lines@);
        let ghost mv = char_views(manual@);
        let mut q: usize = 0;
        while q < manual.len()
            invariant
                q <= manual.len(),
                mv == char_views(manual@),
                char_views(lines@) == a4 + mv.subrange(0, q as int),
            decreases manual.len() - q,
        {
            let l = manual[q].clone();
            add_line(&mut lines, l);
            assert(mv.subrange(0, q + 1) =~= mv.subrange(0, q as int).push(mv[q as int]));
            q = q + 1;
        }
        assert(mv.subrange(0, manual.len() as int) =~= mv);
        add_line(&mut lines, Vec::new());
    }
    add_line(&mut lines, repeat_exec('=', 70));
    add_line(
        &mut lines,
        concat2("Automated checks with >=1 FAIL: ", &decimal_exec(report.automated_fail_count())),
    );
    add_line(
        &mut lines,
        concat2("Systemic FAILs (>=50% of corpus): ", &decimal_exec(report.systemic_fail_count())),
    );
    add_line(&mut lines, repeat_exec('=', 70));
    assert(char_views(lines@) =~= calibration_lines(*report));
    let text = join_with_exec(&lines, &chars_of("\n"));
    string_of(&text)
}

/// The counts of a frequency agree: every document counted has exactly one
/// status, and every failing document is listed once with one detail.
pub open spec fn tally_consistent(f: FrequencyView) -> bool {
    &&& f.pass_count + f.fail_count + f.manual_count + f.error_count == f.total_documents
    &&& f.fail_documents.len() == f.fail_count
    &&& f.fail_details.len() == f.fail_count
}

/// Recording results keeps a frequency's counts in agreement, starting from
/// the zeroed frequency of a fresh tally.
pub proof fn recording_keeps_tally_consistent(f: FrequencyView, filename: Seq<char>, rs: Seq<CheckResultView>)
    requires
        tally_consistent(f),
    ensures
        tally_consistent(recorded_all(f, filename, rs)),
        tally_consistent(fresh_frequency(f.check_id, f.category)),
    decreases rs.len(),
{
    if rs.len() > 0 {
        recording_keeps_tally_consistent(f, filename, rs.drop_last());
    }
}

/// How many of the results are for check `id`.
pub open spec fn results_for(rs: Seq<CheckResultView>, id: Seq<char>) -> nat
    decreases rs.len(),
{
    if rs.len() == 0 {
        0
    } else {
        results_for(rs.drop_last(), id) + if rs.last().check_id == id {
            1nat
        } else {
            0nat
        }
    }
}

/// How many of the results are for check `id` and have status `st`.
pub open spec fn results_with(rs: Seq<CheckResultView>, id: Seq<char>, st: Status) -> nat
    decreases rs.len(),
{
    if rs.len() == 0 {
        0
    } else {
        results_with(rs.drop_last(), id, st) + if rs.last().check_id == id && rs.last().status == st {
            1nat
        } else {
            0nat
        }
    }
}

/// Recording a document's results adds to each status count of a check
/// exactly the number of its results with that status, and to its document
/// count the number of its results; each failure appends the document's name
/// to the failing documents; results of other checks change nothing.
pub proof fn recording_counts_each_status(f: FrequencyView, filename: Seq<char>, rs: Seq<CheckResultView>)
    ensures
        recorded_all(f, filename, rs).check_id == f.check_id,
        recorded_all(f, filename, rs).pass_count == f.pass_count + results_with(rs, f.check_id, Status::Pass),
        recorded_all(f, filename, rs).fail_count == f.fail_count + results_with(rs, f.check_id, Status::Fail),
        recorded_all(f, filename, rs).manual_count == f.manual_count + results_with(rs, f.check_id, Status::Manual),
        recorded_all(f, filename, rs).error_count == f.error_count + results_with(rs, f.check_id, Status::Error),
        recorded_all(f, filename, rs).total_documents == f.total_documents + results_for(rs, f.check_id),
        recorded_all(f, filename, rs).fail_documents.len() == f.fail_documents.len() + results_with(
            rs,
            f.check_id,
            Status::Fail,
        ),
        forall|k: int|
            0 <= k < f.fail_documents.len() ==> #[trigger] recorded_all(f, filename, rs).fail_documents[k]
                == f.fail_documents[k],
        forall|k: int|
            f.fail_documents.len() <= k < recorded_all(f, filename, rs).fail_documents.len()
                ==> #[trigger] recorded_all(f, filename, rs).fail_documents[k] == filename,
    decreases rs.len(),
{
    if rs.len() > 0 {
        recording_counts_each_status(f, filename, rs.drop_last());
    }
}

} // verus!
