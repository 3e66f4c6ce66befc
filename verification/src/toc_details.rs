//! Table-of-contents layout details: which lines carry page numbers, and
//! whether the curriculum vitae entry is listed without leader dots or a
//! page number.

use vstd::prelude::*;
use vstd::utf8::encode_utf8;
use crate::checkers::{make_result, outcome, CheckResult, CheckResultView, EvidenceItem, EvidenceView, Status};
use crate::content::{words, words_exec};
use crate::text::{
    char_is_whitespace, chars_of, contains, contains_exec, is_ascii_digit, is_white_space,
    lowercase, lowercase_exec, string_of, trim, trim_exec,
};

verus! {

/// Every character is an ASCII digit.
pub open spec fn all_digits(w: Seq<char>) -> bool {
    forall|i: int| 0 <= i < w.len() ==> is_ascii_digit(#[trigger] w[i])
}

/// Every character is an ASCII digit or white space.
pub open spec fn digits_or_space(w: Seq<char>) -> bool {
    forall|i: int| 0 <= i < w.len() ==> is_ascii_digit(#[trigger] w[i]) || is_white_space(w[i])
}

/// The last word of the text is a number of at most 4 digits.
pub open spec fn ends_with_short_number(text: Seq<char>) -> bool {
    let ws = words(trim(text));
    ws.len() > 0 && all_digits(ws.last()) && encode_utf8(ws.last()).len() <= 4
}

/// The trimmed text holds only digits and white space.
pub open spec fn only_page_number(text: Seq<char>) -> bool {
    digits_or_space(trim(text))
}

fn all_digits_exec(w: &[char]) -> (r: bool)
    ensures
        r == all_digits(w@),
{
    let mut i: usize = 0;
    while i < w.len()
        invariant
            i <= w.len(),
            forall|k: int| 0 <= k < i ==> is_ascii_digit(#[trigger] w@[k]),
        decreases w.len() - i,
    {
        if !('0' <= w[i] && w[i] <= '9') {
            return false;
        }
        i = i + 1;
    }
    true
}

/// Whether the line's last word is a page number of at most 4 digits.
pub fn has_trailing_page_number(text: &str) -> (r: bool)
    ensures
        r == ends_with_short_number(text@),
{
    let c = chars_of(text);
    let t = trim_exec(&c);
    let ws = words_exec(&t);
    if ws.len() == 0 {
        return false;
    }
    let last = &ws[ws.len() - 1];
    assert(last@ == words(trim(text@)).last());
    if !all_digits_exec(last) {
        return false;
    }
    let s = string_of(last);
    s.as_str().as_bytes().len() <= 4
}

/// Whether the trimmed line holds nothing but digits and white space.
pub fn is_page_number_only(text: &str) -> (r: bool)
    ensures
        r == only_page_number(text@),
{
    let c = chars_of(text);
    let t = trim_exec(&c);
    let mut i: usize = 0;
    while i < t.len()
        invariant
            i <= t.len(),
            t@ == trim(text@),
            forall|k: int| 0 <= k < i ==> is_ascii_digit(#[trigger] t@[k]) || is_white_space(t@[k]),
        decreases t.len() - i,
    {
        let ch = t[i];
        if !(('0' <= ch && ch <= '9') || char_is_whitespace(ch)) {
            assert(!(is_ascii_digit(t@[i as int]) || is_white_space(t@[i as int])));
            return false;
        }
        i = i + 1;
    }
    true
}

/// A line whose right edge counts in the page-number column: only a number,
/// or ending in a short number.
pub fn is_numbered_line(text: &str) -> (r: bool)
    ensures
        r == (only_page_number(text@) || ends_with_short_number(text@)),
{
    is_page_number_only(text) || has_trailing_page_number(text)
}

/// A line of the table-of-contents page: its box (as `f32` bit patterns,
/// `(top, bottom, left, right)`) and its text.
#[derive(Debug)]
pub struct TocLine {
    pub bbox: (u32, u32, u32, u32),
    pub text: String,
}

/// The line names the curriculum vitae.
pub open spec fn is_cv_line(text: Seq<char>) -> bool {
    let low = lowercase(text);
    contains(low, "curriculum vitae"@) || (contains(low, "curriculum"@) && contains(low, "vitae"@))
}

/// Index of the first curriculum vitae line from `i` on.
pub open spec fn cv_index_from(lines: Seq<TocLine>, i: int) -> Option<int>
    decreases lines.len() - i,
{
    if i < 0 || i >= lines.len() {
        None
    } else if is_cv_line(lines[i].text@) {
        Some(i)
    } else {
        cv_index_from(lines, i + 1)
    }
}

/// The last word of the text is made of digits.
pub open spec fn ends_with_number(text: Seq<char>) -> bool {
    let ws = words(text);
    ws.len() > 0 && all_digits(ws.last())
}

/// The notes on a curriculum vitae line: leader dots, then a page number.
pub open spec fn cv_notes(page: usize, line: TocLine) -> Seq<EvidenceView> {
    let dots = if contains(line.text@, "."@) {
        seq![EvidenceView { page, bbox: Some(line.bbox), excerpt: Some("CV entry has leader dots"@) }]
    } else {
        seq![]
    };
    let number = if ends_with_number(line.text@) {
        seq![EvidenceView { page, bbox: Some(line.bbox), excerpt: Some("CV entry has page number"@) }]
    } else {
        seq![]
    };
    dots + number
}

/// The verdict of the curriculum vitae entry check.
pub open spec fn cv_verdict(toc_page: Option<usize>, lines: Seq<TocLine>) -> CheckResultView {
    match toc_page {
        None => outcome(Status::Error, seq![], "TOC page not found"@),
        Some(page) => match cv_index_from(lines, 0) {
            None => outcome(Status::Pass, seq![], "No CV entry found in TOC"@),
            Some(i) => if cv_notes(page, lines[i]).len() == 0 {
                outcome(Status::Pass, seq![], "CV entry in TOC has no dots or page number"@)
            } else {
                outcome(
                    Status::Fail,
                    cv_notes(page, lines[i]),
                    "CV entry in TOC has leader dots or page number"@,
                )
            },
        },
    }
}

/// Checks that the curriculum vitae entry of the table of contents has no
/// leader dots and no page number.
pub struct TocCvNoDotsChecker;

impl TocCvNoDotsChecker {
    pub fn category(&self) -> (r: &'static str)
        ensures
            r@ == "structure"@,
    {
        "structure"
    }

    pub fn name(&self) -> (r: &'static str)
        ensures
            r@ == "toc_cv_no_dots"@,
    {
        "toc_cv_no_dots"
    }

    /// Judges the first curriculum vitae line of the table-of-contents page
    /// numbered `toc_page` (`None` when there is no such page).
    pub fn check(&self, toc_page: Option<usize>, lines: &[TocLine]) -> (r: CheckResult)
        ensures
            r@ == cv_verdict(toc_page, lines@),
    {
        let empty: Vec<EvidenceItem> = Vec::new();
        assert(empty@.map_values(|e: EvidenceItem| e@) =~= seq![]);
        let page = match toc_page {
            None => {
                return make_result(Status::Error, empty, chars_of("TOC page not found"));
            },
            Some(p) => p,
        };
        let mut i: usize = 0;
        while i < lines.len()
            invariant
                i <= lines.len(),
                toc_page == Some(page),
                empty@.map_values(|e: EvidenceItem| e@) == Seq::<EvidenceView>::empty(),
                cv_index_from(lines@, 0) == cv_index_from(lines@, i as int),
            decreases lines.len() - i,
        {
            let tc = chars_of(lines[i].text.as_str());
            let low = lowercase_exec(&tc);
            let cv = contains_exec(&low, &chars_of("curriculum vitae")) || (contains_exec(
                &low,
                &chars_of("curriculum"),
            ) && contains_exec(&low, &chars_of("vitae")));
            if cv {
                let mut notes: Vec<EvidenceItem> = Vec::new();
                if contains_exec(&tc, &chars_of(".")) {
                    notes.push(
                        EvidenceItem {
                            page,
                            bbox: Some(lines[i].bbox),
                            excerpt: Some(string_of(&chars_of("CV entry has leader dots"))),
                        },
                    );
                }
                let ws = words_exec(&tc);
                let numbered = ws.len() > 0 && all_digits_exec(&ws[ws.len() - 1]);
                if ws.len() > 0 {
                    assert(ws@[ws.len() - 1]@ == words(tc@).last());
                }
                if numbered {
                    notes.push(
                        EvidenceItem {
                            page,
                            bbox: Some(lines[i].bbox),
                            excerpt: Some(string_of(&chars_of("CV entry has page number"))),
                        },
                    );
                }
                assert(notes@.map_values(|e: EvidenceItem| e@) =~= cv_notes(page, lines@[i as int]));
                if notes.len() == 0 {
                    return make_result(
                        Status::Pass,
                        empty,
                        chars_of("CV entry in TOC has no dots or page number"),
                    );
                }
                return make_result(
                    Status::Fail,
                    notes,
                    chars_of("CV entry in TOC has leader dots or page number"),
                );
            }
            i = i + 1;
        }
        make_result(Status::Pass, empty, chars_of("No CV entry found in TOC"))
    }
}

/// Checks that table-of-contents page numbers share a right edge; lines are chosen with `is_numbered_line`.
pub struct TocPageNumbersAlignedChecker;

impl TocPageNumbersAlignedChecker {
    pub fn category(&self) -> (r: &'static str)
        ensures
            r@ == "structure"@,
    {
        "structure"
    }

    pub fn name(&self) -> (r: &'static str)
        ensures
            r@ == "toc_page_numbers_aligned"@,
    {
        "toc_page_numbers_aligned"
    }
}

/// Checks that no table-of-contents entry runs past the page-number column; numbers are found with `has_trailing_page_number`.
pub struct TocNoOverhangChecker;

impl TocNoOverhangChecker {
    pub fn category(&self) -> (r: &'static str)
        ensures
            r@ == "structure"@,
    {
        "structure"
    }

    pub fn name(&self) -> (r: &'static str)
        ensures
            r@ == "toc_no_overhang"@,
    {
        "toc_no_overhang"
    }
}

} // verus!
