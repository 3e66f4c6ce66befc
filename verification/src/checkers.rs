//! Check outcomes (status, evidence, result) and the registry that maps a
//! spec's `(category, checker)` pair to the checker that handles it.

use vstd::prelude::*;
use crate::text::{chars_eq, chars_of, string_of};

verus! {

/// Outcome of one check.
#[derive(Debug, Clone, Copy, PartialEq, Eq, Structural)]
pub enum Status {
    Pass,
    Fail,
    Manual,
    Error,
}

/// Upper-case label of a status, as reports print it.
pub open spec fn status_label(s: Status) -> Seq<char> {
    match s {
        Status::Pass => "PASS"@,
        Status::Fail => "FAIL"@,
        Status::Manual => "MANUAL"@,
        Status::Error => "ERROR"@,
    }
}

impl Status {
    pub fn as_str(&self) -> (r: &'static str)
        ensures
            r@ == status_label(*self),
    {
        match self {
            Status::Pass => "PASS",
            Status::Fail => "FAIL",
            Status::Manual => "MANUAL",
            Status::Error => "ERROR",
        }
    }
}

/// A piece of evidence: the 1-based page it is on, an optional box on that
/// page, and an optional excerpt. The box is `(top, bottom, x0, x1)` in page
/// points, each coordinate held as the bit pattern of its `f32` value.
#[derive(Debug, Clone)]
pub struct EvidenceItem {
    pub page: usize,
    pub bbox: Option<(u32, u32, u32, u32)>,
    pub excerpt: Option<String>,
}

/// The result of running one check.
#[derive(Debug, Clone)]
pub struct CheckResult {
    pub check_id: String,
    pub status: Status,
    pub evidence: Vec<EvidenceItem>,
    pub detail: String,
}

/// What an evidence item says, as plain values.
pub struct EvidenceView {
    pub page: usize,
    pub bbox: Option<(u32, u32, u32, u32)>,
    pub excerpt: Option<Seq<char>>,
}

/// What a check result says, as plain values.
pub struct CheckResultView {
    pub check_id: Seq<char>,
    pub status: Status,
    pub evidence: Seq<EvidenceView>,
    pub detail: Seq<char>,
}

impl View for EvidenceItem {
    type V = EvidenceView;

    open spec fn view(&self) -> EvidenceView {
        EvidenceView {
            page: self.page,
            bbox: self.bbox,
            excerpt: match self.excerpt {
                Some(s) => Some(s@),
                None => None,
            },
        }
    }
}

impl View for CheckResult {
    type V = CheckResultView;

    open spec fn view(&self) -> CheckResultView {
        CheckResultView {
            check_id: self.check_id@,
            status: self.status,
            evidence: self.evidence@.map_values(|e: EvidenceItem| e@),
            detail: self.detail@,
        }
    }
}

/// Evidence on a page with no box.
pub open spec fn page_note(page: usize, excerpt: Seq<char>) -> EvidenceView {
    EvidenceView { page, bbox: None, excerpt: Some(excerpt) }
}

/// A result with an empty check id.
pub open spec fn outcome(status: Status, evidence: Seq<EvidenceView>, detail: Seq<char>) -> CheckResultView {
    CheckResultView { check_id: seq![], status, evidence, detail }
}

/// Builds a result with an empty check id (the engine fills it in).
pub fn make_result(status: Status, evidence: Vec<EvidenceItem>, detail: Vec<char>) -> (r: CheckResult)
    ensures
        r@ == outcome(status, evidence@.map_values(|e: EvidenceItem| e@), detail@),
{
    let r = CheckResult { check_id: String::new(), status, evidence, detail: string_of(&detail) };
    assert(r@.evidence =~= evidence@.map_values(|e: EvidenceItem| e@));
    r
}

/// Builds boxless evidence on a page.
pub fn make_note(page: usize, excerpt: Vec<char>) -> (e: EvidenceItem)
    ensures
        e@ == page_note(page, excerpt@),
{
    EvidenceItem { page, bbox: None, excerpt: Some(string_of(&excerpt)) }
}

/// Every checker that a spec can name.
#[derive(Debug, Clone, Copy, PartialEq, Eq, Structural)]
pub enum CheckerKind {
    Margins,
    MarginSymmetry,
    FontSize,
    FontWeight,
    FontFamily,
    Justification,
    SectionPresence,
    SectionOrder,
    BoilerplateMatch,
    CommitteeOrder,
    TocTitleParity,
    HumanReview,
    TitlePageNoPageNumber,
    AcceptancePageNumber,
    PageNumbersFormat,
    HeadingsConsistent,
    NewChaptersNewPages,
    HyperlinksFormat,
    CvNoPageNumber,
    TitlePageAllCaps,
    TitlePageClauseCentered,
    TitlePageClauseSpacing,
    CopyrightPageFormat,
    FootnotesFont,
    ReferencesFont,
    ReferencesHeading,
    CvHeading,
    CvNamePosition,
    AbstractTextCentered,
    AbstractWordCount,
    AbstractTitleFormat,
    TocPageNumbersAligned,
    TocNoOverhang,
    TocCvNoDots,
}

/// The `(category, checker)` pair under which a checker is registered.
pub open spec fn checker_key(k: CheckerKind) -> (Seq<char>, Seq<char>) {
    match k {
        CheckerKind::Margins => ("layout"@, "margins"@),
        CheckerKind::MarginSymmetry => ("layout"@, "margin_symmetry"@),
        CheckerKind::FontSize => ("typography"@, "font_size"@),
        CheckerKind::FontWeight => ("typography"@, "font_weight"@),
        CheckerKind::FontFamily => ("typography"@, "font_family"@),
        CheckerKind::Justification => ("typography"@, "justification"@),
        CheckerKind::SectionPresence => ("structure"@, "section_presence"@),
        CheckerKind::SectionOrder => ("structure"@, "section_order"@),
        CheckerKind::BoilerplateMatch => ("content"@, "boilerplate_match"@),
        CheckerKind::CommitteeOrder => ("content"@, "committee_order"@),
        CheckerKind::TocTitleParity => ("content"@, "toc_title_parity"@),
        CheckerKind::HumanReview => ("human"@, "review"@),
        CheckerKind::TitlePageNoPageNumber => ("structure"@, "title_page_no_page_number"@),
        CheckerKind::AcceptancePageNumber => ("structure"@, "acceptance_page_number"@),
        CheckerKind::PageNumbersFormat => ("structure"@, "page_numbers_format"@),
        CheckerKind::HeadingsConsistent => ("structure"@, "headings_consistent"@),
        CheckerKind::NewChaptersNewPages => ("structure"@, "new_chapters_new_pages"@),
        CheckerKind::HyperlinksFormat => ("structure"@, "hyperlinks_format"@),
        CheckerKind::CvNoPageNumber => ("structure"@, "cv_no_page_number"@),
        CheckerKind::TitlePageAllCaps => ("typography"@, "title_page_all_caps"@),
        CheckerKind::TitlePageClauseCentered => ("typography"@, "title_page_clause_centered"@),
        CheckerKind::TitlePageClauseSpacing => ("typography"@, "title_page_clause_spacing"@),
        CheckerKind::CopyrightPageFormat => ("content"@, "copyright_page_format"@),
        CheckerKind::FootnotesFont => ("typography"@, "footnotes_font_consistent"@),
        CheckerKind::ReferencesFont => ("typography"@, "references_font_consistent"@),
        CheckerKind::ReferencesHeading => ("structure"@, "references_heading_format"@),
        CheckerKind::CvHeading => ("structure"@, "cv_heading_format"@),
        CheckerKind::CvNamePosition => ("structure"@, "cv_name_position"@),
        CheckerKind::AbstractTextCentered => ("typography"@, "abstract_text_centered"@),
        CheckerKind::AbstractWordCount => ("content"@, "abstract_word_count"@),
        CheckerKind::AbstractTitleFormat => ("typography"@, "abstract_title_format"@),
        CheckerKind::TocPageNumbersAligned => ("structure"@, "toc_page_numbers_aligned"@),
        CheckerKind::TocNoOverhang => ("structure"@, "toc_no_overhang"@),
        CheckerKind::TocCvNoDots => ("structure"@, "toc_cv_no_dots"@),
    }
}

/// The registered `(category, checker)` pair of a checker kind.
pub fn checker_key_exec(k: CheckerKind) -> (r: (&'static str, &'static str))
    ensures
        (r.0@, r.1@) == checker_key(k),
{
    match k {
        CheckerKind::Margins => ("layout", "margins"),
        CheckerKind::MarginSymmetry => ("layout", "margin_symmetry"),
        CheckerKind::FontSize => ("typography", "font_size"),
        CheckerKind::FontWeight => ("typography", "font_weight"),
        CheckerKind::FontFamily => ("typography", "font_family"),
        CheckerKind::Justification => ("typography", "justification"),
        CheckerKind::SectionPresence => ("structure", "section_presence"),
        CheckerKind::SectionOrder => ("structure", "section_order"),
        CheckerKind::BoilerplateMatch => ("content", "boilerplate_match"),
        CheckerKind::CommitteeOrder => ("content", "committee_order"),
        CheckerKind::TocTitleParity => ("content", "toc_title_parity"),
        CheckerKind::HumanReview => ("human", "review"),
        CheckerKind::TitlePageNoPageNumber => ("structure", "title_page_no_page_number"),
        CheckerKind::AcceptancePageNumber => ("structure", "acceptance_page_number"),
        CheckerKind::PageNumbersFormat => ("structure", "page_numbers_format"),
        CheckerKind::HeadingsConsistent => ("structure", "headings_consistent"),
        CheckerKind::NewChaptersNewPages => ("structure", "new_chapters_new_pages"),
        CheckerKind::HyperlinksFormat => ("structure", "hyperlinks_format"),
        CheckerKind::CvNoPageNumber => ("structure", "cv_no_page_number"),
        CheckerKind::TitlePageAllCaps => ("typography", "title_page_all_caps"),
        CheckerKind::TitlePageClauseCentered => ("typography", "title_page_clause_centered"),
        CheckerKind::TitlePageClauseSpacing => ("typography", "title_page_clause_spacing"),
        CheckerKind::CopyrightPageFormat => ("content", "copyright_page_format"),
        CheckerKind::FootnotesFont => ("typography", "footnotes_font_consistent"),
        CheckerKind::ReferencesFont => ("typography", "references_font_consistent"),
        CheckerKind::ReferencesHeading => ("structure", "references_heading_format"),
        CheckerKind::CvHeading => ("structure", "cv_heading_format"),
        CheckerKind::CvNamePosition => ("structure", "cv_name_position"),
        CheckerKind::AbstractTextCentered => ("typography", "abstract_text_centered"),
        CheckerKind::AbstractWordCount => ("content", "abstract_word_count"),
        CheckerKind::AbstractTitleFormat => ("typography", "abstract_title_format"),
        CheckerKind::TocPageNumbersAligned => ("structure", "toc_page_numbers_aligned"),
        CheckerKind::TocNoOverhang => ("structure", "toc_no_overhang"),
        CheckerKind::TocCvNoDots => ("structure", "toc_cv_no_dots"),
    }
}

/// Every checker kind, once each.
pub fn all_checker_kinds() -> (v: Vec<CheckerKind>)
    ensures
        forall|k: CheckerKind| v@.contains(k),
{
    let mut v: Vec<CheckerKind> = Vec::new();
    v.push(CheckerKind::Margins);
    v.push(CheckerKind::MarginSymmetry);
    v.push(CheckerKind::FontSize);
    v.push(CheckerKind::FontWeight);
    v.push(CheckerKind::FontFamily);
    v.push(CheckerKind::Justification);
    v.push(CheckerKind::SectionPresence);
    v.push(CheckerKind::SectionOrder);
    v.push(CheckerKind::BoilerplateMatch);
    v.push(CheckerKind::CommitteeOrder);
    v.push(CheckerKind::TocTitleParity);
    v.push(CheckerKind::HumanReview);
    v.push(CheckerKind::TitlePageNoPageNumber);
    v.push(CheckerKind::AcceptancePageNumber);
    v.push(CheckerKind::PageNumbersFormat);
    v.push(CheckerKind::HeadingsConsistent);
    v.push(CheckerKind::NewChaptersNewPages);
    v.push(CheckerKind::HyperlinksFormat);
    v.push(CheckerKind::CvNoPageNumber);
    v.push(CheckerKind::TitlePageAllCaps);
    v.push(CheckerKind::TitlePageClauseCentered);
    v.push(CheckerKind::TitlePageClauseSpacing);
    v.push(CheckerKind::CopyrightPageFormat);
    v.push(CheckerKind::FootnotesFont);
    v.push(CheckerKind::ReferencesFont);
    v.push(CheckerKind::ReferencesHeading);
    v.push(CheckerKind::CvHeading);
    v.push(CheckerKind::CvNamePosition);
    v.push(CheckerKind::AbstractTextCentered);
    v.push(CheckerKind::AbstractWordCount);
    v.push(CheckerKind::AbstractTitleFormat);
    v.push(CheckerKind::TocPageNumbersAligned);
    v.push(CheckerKind::TocNoOverhang);
    v.push(CheckerKind::TocCvNoDots);
    assert forall|k: CheckerKind| v@.contains(k) by {
        match k {
            CheckerKind::Margins => { assert(v@[0] == k); },
            CheckerKind::MarginSymmetry => { assert(v@[1] == k); },
            CheckerKind::FontSize => { assert(v@[2] == k); },
            CheckerKind::FontWeight => { assert(v@[3] == k); },
            CheckerKind::FontFamily => { assert(v@[4] == k); },
            CheckerKind::Justification => { assert(v@[5] == k); },
            CheckerKind::SectionPresence => { assert(v@[6] == k); },
            CheckerKind::SectionOrder => { assert(v@[7] == k); },
            CheckerKind::BoilerplateMatch => { assert(v@[8] == k); },
            CheckerKind::CommitteeOrder => { assert(v@[9] == k); },
            CheckerKind::TocTitleParity => { assert(v@[10] == k); },
            CheckerKind::HumanReview => { assert(v@[11] == k); },
            CheckerKind::TitlePageNoPageNumber => { assert(v@[12] == k); },
            CheckerKind::AcceptancePageNumber => { assert(v@[13] == k); },
            CheckerKind::PageNumbersFormat => { assert(v@[14] == k); },
            CheckerKind::HeadingsConsistent => { assert(v@[15] == k); },
            CheckerKind::NewChaptersNewPages => { assert(v@[16] == k); },
            CheckerKind::HyperlinksFormat => { assert(v@[17] == k); },
            CheckerKind::CvNoPageNumber => { assert(v@[18] == k); },
            CheckerKind::TitlePageAllCaps => { assert(v@[19] == k); },
            CheckerKind::TitlePageClauseCentered => { assert(v@[20] == k); },
            CheckerKind::TitlePageClauseSpacing => { assert(v@[21] == k); },
            CheckerKind::CopyrightPageFormat => { assert(v@[22] == k); },
            CheckerKind::FootnotesFont => { assert(v@[23] == k); },
            CheckerKind::ReferencesFont => { assert(v@[24] == k); },
            CheckerKind::ReferencesHeading => { assert(v@[25] == k); },
            CheckerKind::CvHeading => { assert(v@[26] == k); },
            CheckerKind::CvNamePosition => { assert(v@[27] == k); },
            CheckerKind::AbstractTextCentered => { assert(v@[28] == k); },
            CheckerKind::AbstractWordCount => { assert(v@[29] == k); },
            CheckerKind::AbstractTitleFormat => { assert(v@[30] == k); },
            CheckerKind::TocPageNumbersAligned => { assert(v@[31] == k); },
            CheckerKind::TocNoOverhang => { assert(v@[32] == k); },
            CheckerKind::TocCvNoDots => { assert(v@[33] == k); },
        }
    }
    v
}

/// Looks up the checker registered under `(category, name)`.
pub fn get_checker(category: &str, name: &str) -> (r: Option<CheckerKind>)
    ensures
        match r {
            Some(k) => checker_key(k) == (category@, name@),
            None => forall|k: CheckerKind| checker_key(k) != (category@, name@),
        },
{
    let c = chars_of(category);
    let n = chars_of(name);
    let kinds = all_checker_kinds();
    let mut i: usize = 0;
    while i < kinds.len()
        invariant
            i <= kinds.len(),
            c@ == category@,
            n@ == name@,
            forall|k: CheckerKind| kinds@.contains(k),
            forall|j: int| 0 <= j < i ==> checker_key(#[trigger] kinds@[j]) != (category@, name@),
        decreases kinds.len() - i,
    {
        let (kc, kn) = checker_key_exec(kinds[i]);
        let kc_chars = chars_of(kc);
        let kn_chars = chars_of(kn);
        if chars_eq(&kc_chars, &c) && chars_eq(&kn_chars, &n) {
            return Some(kinds[i]);
        }
        i = i + 1;
    }
    assert forall|k: CheckerKind| checker_key(k) != (category@, name@) by {
        assert(kinds@.contains(k));
        let j = choose|j: int| 0 <= j < kinds@.len() && kinds@[j] == k;
        assert(checker_key(kinds@[j]) != (category@, name@));
    }
    None
}

/// The checker a registry name belongs to.
pub open spec fn kind_named(key: (Seq<char>, Seq<char>)) -> Option<CheckerKind> {
    if key.1.len() == 7 {
        if key.1 == "margins"@ {
            Some(CheckerKind::Margins)
        } else {
            None
        }
    } else if key.1.len() == 15 {
        if key.1 == "margin_symmetry"@ {
            Some(CheckerKind::MarginSymmetry)
        } else if key.1 == "committee_order"@ {
            Some(CheckerKind::CommitteeOrder)
        } else if key.1 == "toc_no_overhang"@ {
            Some(CheckerKind::TocNoOverhang)
        } else {
            None
        }
    } else if key.1.len() == 9 {
        if key.1 == "font_size"@ {
            Some(CheckerKind::FontSize)
        } else {
            None
        }
    } else if key.1.len() == 11 {
        if key.1 == "font_weight"@ {
            Some(CheckerKind::FontWeight)
        } else if key.1 == "font_family"@ {
            Some(CheckerKind::FontFamily)
        } else {
            None
        }
    } else if key.1.len() == 13 {
        if key.1 == "justification"@ {
            Some(CheckerKind::Justification)
        } else if key.1 == "section_order"@ {
            Some(CheckerKind::SectionOrder)
        } else {
            None
        }
    } else if key.1.len() == 16 {
        if key.1 == "section_presence"@ {
            Some(CheckerKind::SectionPresence)
        } else if key.1 == "toc_title_parity"@ {
            Some(CheckerKind::TocTitleParity)
        } else if key.1 == "cv_name_position"@ {
            Some(CheckerKind::CvNamePosition)
        } else {
            None
        }
    } else if key.1.len() == 17 {
        if key.1 == "boilerplate_match"@ {
            Some(CheckerKind::BoilerplateMatch)
        } else if key.1 == "hyperlinks_format"@ {
            Some(CheckerKind::HyperlinksFormat)
        } else if key.1 == "cv_no_page_number"@ {
            Some(CheckerKind::CvNoPageNumber)
        } else if key.1 == "cv_heading_format"@ {
            Some(CheckerKind::CvHeading)
        } else {
            None
        }
    } else if key.1.len() == 6 {
        if key.1 == "review"@ {
            Some(CheckerKind::HumanReview)
        } else {
            None
        }
    } else if key.1.len() == 25 {
        if key.1 == "title_page_no_page_number"@ {
            Some(CheckerKind::TitlePageNoPageNumber)
        } else if key.1 == "title_page_clause_spacing"@ {
            Some(CheckerKind::TitlePageClauseSpacing)
        } else if key.1 == "footnotes_font_consistent"@ {
            Some(CheckerKind::FootnotesFont)
        } else if key.1 == "references_heading_format"@ {
            Some(CheckerKind::ReferencesHeading)
        } else {
            None
        }
    } else if key.1.len() == 22 {
        if key.1 == "acceptance_page_number"@ {
            Some(CheckerKind::AcceptancePageNumber)
        } else if key.1 == "new_chapters_new_pages"@ {
            Some(CheckerKind::NewChaptersNewPages)
        } else if key.1 == "abstract_text_centered"@ {
            Some(CheckerKind::AbstractTextCentered)
        } else {
            None
        }
    } else if key.1.len() == 19 {
        if key.1 == "page_numbers_format"@ {
            Some(CheckerKind::PageNumbersFormat)
        } else if key.1 == "headings_consistent"@ {
            Some(CheckerKind::HeadingsConsistent)
        } else if key.1 == "title_page_all_caps"@ {
            Some(CheckerKind::TitlePageAllCaps)
        } else if key.1 == "abstract_word_count"@ {
            Some(CheckerKind::AbstractWordCount)
        } else {
            None
        }
    } else if key.1.len() == 26 {
        if key.1 == "title_page_clause_centered"@ {
            Some(CheckerKind::TitlePageClauseCentered)
        } else if key.1 == "references_font_consistent"@ {
            Some(CheckerKind::ReferencesFont)
        } else {
            None
        }
    } else if key.1.len() == 21 {
        if key.1 == "copyright_page_format"@ {
            Some(CheckerKind::CopyrightPageFormat)
        } else if key.1 == "abstract_title_format"@ {
            Some(CheckerKind::AbstractTitleFormat)
        } else {
            None
        }
    } else if key.1.len() == 24 {
        if key.1 == "toc_page_numbers_aligned"@ {
            Some(CheckerKind::TocPageNumbersAligned)
        } else {
            None
        }
    } else if key.1.len() == 14 {
        if key.1 == "toc_cv_no_dots"@ {
            Some(CheckerKind::TocCvNoDots)
        } else {
            None
        }
    } else {
        None
    }
}

#[verifier::spinoff_prover]
proof fn lemma_key_names_kind(k: CheckerKind)
    ensures
        kind_named(checker_key(k)) == Some(k),
{
    reveal_strlit("margins");
    reveal_strlit("margin_symmetry");
    reveal_strlit("font_size");
    reveal_strlit("font_weight");
    reveal_strlit("font_family");
    reveal_strlit("justification");
    reveal_strlit("section_presence");
    reveal_strlit("section_order");
    reveal_strlit("boilerplate_match");
    reveal_strlit("committee_order");
    reveal_strlit("toc_title_parity");
    reveal_strlit("review");
    reveal_strlit("title_page_no_page_number");
    reveal_strlit("acceptance_page_number");
    reveal_strlit("page_numbers_format");
    reveal_strlit("headings_consistent");
    reveal_strlit("new_chapters_new_pages");
    reveal_strlit("hyperlinks_format");
    reveal_strlit("cv_no_page_number");
    reveal_strlit("title_page_all_caps");
    reveal_strlit("title_page_clause_centered");
    reveal_strlit("title_page_clause_spacing");
    reveal_strlit("copyright_page_format");
    reveal_strlit("footnotes_font_consistent");
    reveal_strlit("references_font_consistent");
    reveal_strlit("references_heading_format");
    reveal_strlit("cv_heading_format");
    reveal_strlit("cv_name_position");
    reveal_strlit("abstract_text_centered");
    reveal_strlit("abstract_word_count");
    reveal_strlit("abstract_title_format");
    reveal_strlit("toc_page_numbers_aligned");
    reveal_strlit("toc_no_overhang");
    reveal_strlit("toc_cv_no_dots");
    assert("margins"@.len() == 7);
    assert("margin_symmetry"@.len() == 15);
    assert("font_size"@.len() == 9);
    assert("font_weight"@.len() == 11);
    assert("font_family"@.len() == 11);
    assert("justification"@.len() == 13);
    assert("section_presence"@.len() == 16);
    assert("section_order"@.len() == 13);
    assert("boilerplate_match"@.len() == 17);
    assert("committee_order"@.len() == 15);
    assert("toc_title_parity"@.len() == 16);
    assert("review"@.len() == 6);
    assert("title_page_no_page_number"@.len() == 25);
    assert("acceptance_page_number"@.len() == 22);
    assert("page_numbers_format"@.len() == 19);
    assert("headings_consistent"@.len() == 19);
    assert("new_chapters_new_pages"@.len() == 22);
    assert("hyperlinks_format"@.len() == 17);
    assert("cv_no_page_number"@.len() == 17);
    assert("title_page_all_caps"@.len() == 19);
    assert("title_page_clause_centered"@.len() == 26);
    assert("title_page_clause_spacing"@.len() == 25);
    assert("copyright_page_format"@.len() == 21);
    assert("footnotes_font_consistent"@.len() == 25);
    assert("references_font_consistent"@.len() == 26);
    assert("references_heading_format"@.len() == 25);
    assert("cv_heading_format"@.len() == 17);
    assert("cv_name_position"@.len() == 16);
    assert("abstract_text_centered"@.len() == 22);
    assert("abstract_word_count"@.len() == 19);
    assert("abstract_title_format"@.len() == 21);
    assert("toc_page_numbers_aligned"@.len() == 24);
    assert("toc_no_overhang"@.len() == 15);
    assert("toc_cv_no_dots"@.len() == 14);
    match k {
        CheckerKind::Margins => {
        },
        CheckerKind::MarginSymmetry => {
        },
        CheckerKind::FontSize => {
        },
        CheckerKind::FontWeight => {
        },
        CheckerKind::FontFamily => {
            assert("font_weight"@[5] != "font_family"@[5]);
        },
        CheckerKind::Justification => {
        },
        CheckerKind::SectionPresence => {
        },
        CheckerKind::SectionOrder => {
            assert("justification"@[0] != "section_order"@[0]);
        },
        CheckerKind::BoilerplateMatch => {
        },
        CheckerKind::CommitteeOrder => {
            assert("margin_symmetry"@[0] != "committee_order"@[0]);
        },
        CheckerKind::TocTitleParity => {
            assert("section_presence"@[0] != "toc_title_parity"@[0]);
        },
        CheckerKind::HumanReview => {
        },
        CheckerKind::TitlePageNoPageNumber => {
        },
        CheckerKind::AcceptancePageNumber => {
        },
        CheckerKind::PageNumbersFormat => {
        },
        CheckerKind::HeadingsConsistent => {
            assert("page_numbers_format"@[0] != "headings_consistent"@[0]);
        },
        CheckerKind::NewChaptersNewPages => {
            assert("acceptance_page_number"@[0] != "new_chapters_new_pages"@[0]);
        },
        CheckerKind::HyperlinksFormat => {
            assert("boilerplate_match"@[0] != "hyperlinks_format"@[0]);
        },
        CheckerKind::CvNoPageNumber => {
            assert("boilerplate_match"@[0] != "cv_no_page_number"@[0]);
            assert("hyperlinks_format"@[0] != "cv_no_page_number"@[0]);
        },
        CheckerKind::TitlePageAllCaps => {
            assert("page_numbers_format"@[0] != "title_page_all_caps"@[0]);
            assert("headings_consistent"@[0] != "title_page_all_caps"@[0]);
        },
        CheckerKind::TitlePageClauseCentered => {
        },
        CheckerKind::TitlePageClauseSpacing => {
            assert("title_page_no_page_number"@[11] != "title_page_clause_spacing"@[11]);
        },
        CheckerKind::CopyrightPageFormat => {
        },
        CheckerKind::FootnotesFont => {
            assert("title_page_no_page_number"@[0] != "footnotes_font_consistent"@[0]);
            assert("title_page_clause_spacing"@[0] != "footnotes_font_consistent"@[0]);
        },
        CheckerKind::ReferencesFont => {
            assert("title_page_clause_centered"@[0] != "references_font_consistent"@[0]);
        },
        CheckerKind::ReferencesHeading => {
            assert("title_page_no_page_number"@[0] != "references_heading_format"@[0]);
            assert("title_page_clause_spacing"@[0] != "references_heading_format"@[0]);
            assert("footnotes_font_consistent"@[0] != "references_heading_format"@[0]);
        },
        CheckerKind::CvHeading => {
            assert("boilerplate_match"@[0] != "cv_heading_format"@[0]);
            assert("hyperlinks_format"@[0] != "cv_heading_format"@[0]);
            assert("cv_no_page_number"@[3] != "cv_heading_format"@[3]);
        },
        CheckerKind::CvNamePosition => {
            assert("section_presence"@[0] != "cv_name_position"@[0]);
            assert("toc_title_parity"@[0] != "cv_name_position"@[0]);
        },
        CheckerKind::AbstractTextCentered => {
            assert("acceptance_page_number"@[1] != "abstract_text_centered"@[1]);
            assert("new_chapters_new_pages"@[0] != "abstract_text_centered"@[0]);
        },
        CheckerKind::AbstractWordCount => {
            assert("page_numbers_format"@[0] != "abstract_word_count"@[0]);
            assert("headings_consistent"@[0] != "abstract_word_count"@[0]);
            assert("title_page_all_caps"@[0] != "abstract_word_count"@[0]);
        },
        CheckerKind::AbstractTitleFormat => {
            assert("copyright_page_format"@[0] != "abstract_title_format"@[0]);
        },
        CheckerKind::TocPageNumbersAligned => {
        },
        CheckerKind::TocNoOverhang => {
            assert("margin_symmetry"@[0] != "toc_no_overhang"@[0]);
            assert("committee_order"@[0] != "toc_no_overhang"@[0]);
        },
        CheckerKind::TocCvNoDots => {
        },
    }
}

/// No two checkers share a registry key, so a key names at most one checker
/// and `get_checker` finds exactly the checker registered under it.
pub proof fn checker_keys_distinct(a: CheckerKind, b: CheckerKind)
    ensures
        checker_key(a) == checker_key(b) ==> a == b,
{
    lemma_key_names_kind(a);
    lemma_key_names_kind(b);
}

} // verus!
