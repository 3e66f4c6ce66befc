//! Chapter titles listed in the table of contents against the headings that
//! open the chapters in the body.

use vstd::prelude::*;
use vstd::string::StringSliceAdditionalSpecFns;
use vstd::utf8::{decode_utf8, encode_utf8, is_char_boundary};
use crate::checkers::{
    make_note, make_result, outcome, page_note, CheckResult, CheckResultView, EvidenceItem,
    EvidenceView, Status,
};
use crate::content::{
    contains_chapter_keyword, names_chapter, normalize_title, normalized_title, texts,
    titles_match, titles_match_norm,
};
use crate::pattern::{
    compile_pattern, pattern_capture_pair, regex_capture_pair, regex_compiles, Pattern,
};
use crate::text::{
    append_chars, chars_of, contains, contains_exec, decimal, decimal_exec, find_bytes,
    find_bytes_exec, first_chars, lowercase, lowercase_exec, parse_usize, parsed_usize,
    str_to_lowercase, string_of, trim, trim_exec,
};

verus! {

/// Pattern of a table-of-contents line: a title, a dot leader and a page number (`TOC_RE`).
pub open spec fn toc_pattern() -> Seq<char> {
    "^(.+?)\\.{2,}\\s*(\\d+)\\s*$"@
}

/// The entry that one table-of-contents line holds: the trimmed title and the
/// page number, when the trimmed line has the dot-leader shape and the number
/// parses.
pub open spec fn toc_entry(line: Seq<char>) -> Option<(Seq<char>, nat)> {
    if !regex_compiles(toc_pattern()) {
        None
    } else {
        match regex_capture_pair(toc_pattern(), trim(line)) {
            Some((Some(title), Some(number))) => match parsed_usize(number) {
                Some(n) => Some((trim(title), n)),
                None => None,
            },
            _ => None,
        }
    }
}

/// The entries of a list of lines, in order.
pub open spec fn toc_entries_of(lines: Seq<Seq<char>>) -> Seq<(Seq<char>, nat)>
    decreases lines.len(),
{
    if lines.len() == 0 {
        seq![]
    } else {
        let r = toc_entries_of(lines.drop_last());
        match toc_entry(lines.last()) {
            Some(e) => r.push(e),
            None => r,
        }
    }
}

/// The views of a list of entries.
pub open spec fn entry_views(v: Seq<(String, usize)>) -> Seq<(Seq<char>, nat)> {
    v.map_values(|e: (String, usize)| (e.0@, e.1 as nat))
}

/// Reads the (title, page) entries of the table-of-contents lines.
pub fn extract_toc_entries(lines: &[String]) -> (r: Vec<(String, usize)>)
    ensures
        entry_views(r@) == toc_entries_of(texts(lines@)),
{
    let re = compile_pattern("^(.+?)\\.{2,}\\s*(\\d+)\\s*$");
    let ghost lv = texts(lines@);
    let mut entries: Vec<(String, usize)> = Vec::new();
    let mut i: usize = 0;
    assert(entry_views(entries@) =~= toc_entries_of(lv.subrange(0, 0)));
    while i < lines.len()
        invariant
            i <= lines.len(),
            lv == texts(lines@),
            re is Some <==> regex_compiles(toc_pattern()),
            re matches Some(q) ==> q@ == toc_pattern(),
            entry_views(entries@) == toc_entries_of(lv.subrange(0, i as int)),
        decreases lines.len() - i,
    {
        proof {
            assert(lv.subrange(0, i + 1).drop_last() =~= lv.subrange(0, i as int));
        }
        let ghost before = entry_views(entries@);
        let lc = chars_of(lines[i].as_str());
        let t = trim_exec(&lc);
        let ts = string_of(&t);
        let entry: Option<(String, usize)> = match &re {
            None => None,
            Some(p) => match pattern_capture_pair(p, ts.as_str()) {
                Some((Some(title), Some(number))) => {
                    let nc = chars_of(number.as_str());
                    match parse_usize(&nc) {
                        Some(n) => {
                            let tc = chars_of(title.as_str());
                            let tt = trim_exec(&tc);
                            Some((string_of(&tt), n))
                        },
                        None => None,
                    }
                },
                _ => None,
            },
        };
        match entry {
            Some(e) => {
                let ghost ev = (e.0@, e.1 as nat);
                entries.push(e);
                assert(entry_views(entries@) =~= before.push(ev));
            },
            None => {},
        }
        i = i + 1;
    }
    assert(lv.subrange(0, lines.len() as int) =~= lv);
    entries
}

/// The heading that starts at byte `pos` of `full`: its next 80 characters,
/// trimmed; `None` when `pos` is not a character boundary (slicing there panics).
pub open spec fn heading_at(full: Seq<char>, pos: int) -> Option<Seq<char>> {
    let b = encode_utf8(full);
    if is_char_boundary(b, pos) {
        Some(trim(first_chars(decode_utf8(b.subrange(pos, b.len() as int)), 80)))
    } else {
        None
    }
}

/// The chapter (or else appendix) heading of a page's body text: the text from
/// the first "chapter " (or else "appendix ") of its lowercased form, found as
/// a byte position in the lowercased text and applied to the text as given.
/// Empty when neither occurs; `None` where that position does not fall on a
/// character boundary of the text as given.
pub open spec fn page_heading(full: Seq<char>) -> Option<Seq<char>> {
    let low = encode_utf8(lowercase(full));
    match find_bytes(low, encode_utf8("chapter "@)) {
        Some(p) => heading_at(full, p),
        None => match find_bytes(low, encode_utf8("appendix "@)) {
            Some(p) => heading_at(full, p),
            None => Some(seq![]),
        },
    }
}

fn heading_from(full_text: &str, pos: usize) -> (r: Option<String>)
    ensures
        match r {
            Some(h) => heading_at(full_text@, pos as int) == Some(h@),
            None => heading_at(full_text@, pos as int) is None,
        },
{
    if !full_text.is_char_boundary(pos) {
        return None;
    }
    let (_, tail) = full_text.split_at(pos);
    proof {
        vstd::utf8::encode_utf8_decode_utf8(tail@);
    }
    let cs = chars_of(tail);
    let mut first: Vec<char> = Vec::new();
    let mut i: usize = 0;
    while i < cs.len() && i < 80
        invariant
            i <= cs.len(),
            i <= 80,
            first@ == cs@.subrange(0, i as int),
        decreases cs.len() - i,
    {
        first.push(cs[i]);
        i = i + 1;
    }
    assert(first@ == first_chars(cs@, 80));
    let t = trim_exec(&first);
    Some(string_of(&t))
}

/// The chapter or appendix heading of a page's body text (see `page_heading`).
pub fn extract_page_heading(full_text: &str) -> (r: Option<String>)
    ensures
        match r {
            Some(h) => page_heading(full_text@) == Some(h@),
            None => page_heading(full_text@) is None,
        },
{
    let low = str_to_lowercase(full_text);
    let lb = low.as_str().as_bytes();
    let chapter = "chapter ".as_bytes();
    match find_bytes_exec(lb, chapter) {
        Some(p) => heading_from(full_text, p),
        None => {
            let appendix = "appendix ".as_bytes();
            match find_bytes_exec(lb, appendix) {
                Some(p) => heading_from(full_text, p),
                None => Some(String::new()),
            }
        },
    }
}

/// What the table-of-contents check reads from one page.
#[derive(Debug, Clone)]
pub struct PageText {
    pub page_number: usize,
    /// The texts of the page's spans, in extraction order.
    pub span_texts: Vec<String>,
    /// The page's lines: spans sharing a rounded top edge, left to right,
    /// joined with spaces.
    pub lines: Vec<String>,
    /// The spans inside the 36pt top and bottom margins, top to bottom and
    /// left to right, joined with spaces.
    pub body_text: String,
}

/// The view of a page: number, span texts, lines and body text.
pub open spec fn page_text_view(p: PageText) -> (usize, Seq<Seq<char>>, Seq<Seq<char>>, Seq<char>) {
    (p.page_number, texts(p.span_texts@), texts(p.lines@), p.body_text@)
}

/// Texts joined with single spaces.
pub open spec fn joined(ls: Seq<Seq<char>>) -> Seq<char>
    decreases ls.len(),
{
    if ls.len() == 0 {
        seq![]
    } else if ls.len() == 1 {
        ls[0]
    } else {
        joined(ls.drop_last()) + " "@ + ls.last()
    }
}

/// The page's text mentions "table of contents" in any case.
pub open spec fn is_toc_page(p: PageText) -> bool {
    contains(lowercase(joined(texts(p.span_texts@))), "table of contents"@)
}

/// Index of the first table-of-contents page at or after `i`.
pub open spec fn toc_index_from(pages: Seq<PageText>, i: int) -> Option<int>
    decreases pages.len() - i,
{
    if i < 0 || i >= pages.len() {
        None
    } else if is_toc_page(pages[i]) {
        Some(i)
    } else {
        toc_index_from(pages, i + 1)
    }
}

/// Whether some page after `j` (other than the one numbered `toc_page`) opens
/// with a heading matching the normalized title; `None` where reading a
/// heading before the first match would panic.
pub open spec fn heading_found(title_norm: Seq<char>, pages: Seq<PageText>, toc_page: usize, j: int) -> Option<bool>
    decreases pages.len() - j,
{
    if j < 0 || j >= pages.len() {
        Some(false)
    } else if pages[j].page_number == toc_page {
        heading_found(title_norm, pages, toc_page, j + 1)
    } else {
        match page_heading(pages[j].body_text@) {
            None => None,
            Some(h) => if titles_match(title_norm, normalized_title(h)) {
                Some(true)
            } else {
                heading_found(title_norm, pages, toc_page, j + 1)
            },
        }
    }
}

/// The title as an excerpt shows it: its first 60 bytes when longer; `None`
/// when byte 60 is not a character boundary (the slice panics there).
pub open spec fn excerpt_title(title: Seq<char>) -> Option<Seq<char>> {
    let b = encode_utf8(title);
    if b.len() > 60 {
        if is_char_boundary(b, 60) {
            Some(decode_utf8(b.subrange(0, 60)))
        } else {
            None
        }
    } else {
        Some(title)
    }
}

/// The evidence for a chapter title missing from the body.
pub open spec fn missing_title_note(shown: Seq<char>) -> EvidenceView {
    page_note(0, "TOC: \""@ + shown + "\" \u{2014} no matching heading found in body"@)
}

/// Walks the entries from `k`: chapter entries are counted and, when no body
/// heading matches, noted; `None` where a title or heading would be sliced
/// inside a character.
pub open spec fn parity_from(
    entries: Seq<(Seq<char>, nat)>,
    pages: Seq<PageText>,
    toc_page: usize,
    k: int,
    notes: Seq<EvidenceView>,
    checked: nat,
) -> Option<(Seq<EvidenceView>, nat)>
    decreases entries.len() - k,
{
    if k < 0 || k >= entries.len() {
        Some((notes, checked))
    } else if !names_chapter(entries[k].0) {
        parity_from(entries, pages, toc_page, k + 1, notes, checked)
    } else {
        match heading_found(normalized_title(entries[k].0), pages, toc_page, 0) {
            None => None,
            Some(true) => parity_from(entries, pages, toc_page, k + 1, notes, checked + 1),
            Some(false) => match excerpt_title(entries[k].0) {
                None => None,
                Some(shown) => parity_from(
                    entries,
                    pages,
                    toc_page,
                    k + 1,
                    notes.push(missing_title_note(shown)),
                    checked + 1,
                ),
            },
        }
    }
}

/// The result of the table-of-contents title check, or `None` on the inputs
/// where a title or heading would be sliced inside a character.
pub open spec fn toc_parity(pages: Seq<PageText>) -> Option<CheckResultView> {
    match toc_index_from(pages, 0) {
        None => Some(outcome(Status::Error, seq![], "TOC page not found"@)),
        Some(i) => match parity_from(
            toc_entries_of(texts(pages[i].lines@)),
            pages,
            pages[i].page_number,
            0,
            seq![],
            0,
        ) {
            None => None,
            Some((notes, checked)) => Some(
                if notes.len() > 0 {
                    outcome(
                        Status::Fail,
                        notes,
                        decimal(notes.len()) + "/"@ + decimal(checked)
                            + " chapter title(s) mismatch between TOC and body"@,
                    )
                } else {
                    outcome(
                        Status::Pass,
                        seq![],
                        "All "@ + decimal(checked) + " chapter titles match between TOC and body"@,
                    )
                },
            ),
        },
    }
}

fn join_texts(ls: &[String]) -> (r: Vec<char>)
    ensures
        r@ == joined(texts(ls@)),
{
    let ghost lv = texts(ls@);
    let mut out: Vec<char> = Vec::new();
    let mut i: usize = 0;
    while i < ls.len()
        invariant
            i <= ls.len(),
            lv == texts(ls@),
            out@ == joined(lv.subrange(0, i as int)),
        decreases ls.len() - i,
    {
        proof {
            assert(lv.subrange(0, i + 1).drop_last() =~= lv.subrange(0, i as int));
        }
        let c = chars_of(ls[i].as_str());
        if i > 0 {
            let sp = chars_of(" ");
            append_chars(&mut out, &sp);
        }
        append_chars(&mut out, &c);
        assert(lv.subrange(0, i + 1).last() == c@);
        i = i + 1;
    }
    assert(lv.subrange(0, ls.len() as int) =~= lv);
    out
}

/// Index of the first page whose text mentions "table of contents".
pub fn find_toc_page(pages: &[PageText]) -> (r: Option<usize>)
    ensures
        match r {
            Some(i) => i < pages@.len() && toc_index_from(pages@, 0) == Some(i as int),
            None => toc_index_from(pages@, 0) is None,
        },
{
    let mut i: usize = 0;
    while i < pages.len()
        invariant
            i <= pages.len(),
            toc_index_from(pages@, 0) == toc_index_from(pages@, i as int),
        decreases pages.len() - i,
    {
        let text = join_texts(&pages[i].span_texts);
        let low = lowercase_exec(&text);
        let needle = chars_of("table of contents");
        if contains_exec(&low, &needle) {
            return Some(i);
        }
        i = i + 1;
    }
    None
}

fn find_heading(title_norm: &str, pages: &[PageText], toc_page: usize) -> (r: Option<bool>)
    ensures
        r == heading_found(title_norm@, pages@, toc_page, 0),
{
    let mut j: usize = 0;
    while j < pages.len()
        invariant
            j <= pages.len(),
            heading_found(title_norm@, pages@, toc_page, 0) == heading_found(
                title_norm@,
                pages@,
                toc_page,
                j as int,
            ),
        decreases pages.len() - j,
    {
        if pages[j].page_number != toc_page {
            match extract_page_heading(pages[j].body_text.as_str()) {
                None => {
                    return None;
                },
                Some(h) => {
                    let body_norm = normalize_title(h.as_str());
                    if titles_match_norm(title_norm, body_norm.as_str()) {
                        return Some(true);
                    }
                },
            }
        }
        j = j + 1;
    }
    Some(false)
}

fn shown_title(title: &str) -> (r: Option<String>)
    ensures
        match r {
            Some(s) => excerpt_title(title@) == Some(s@),
            None => excerpt_title(title@) is None,
        },
{
    let n = title.as_bytes().len();
    if n > 60 {
        if title.is_char_boundary(60) {
            let (head, _) = title.split_at(60);
            proof {
                vstd::utf8::encode_utf8_decode_utf8(head@);
            }
            Some(head.to_owned())
        } else {
            None
        }
    } else {
        Some(title.to_owned())
    }
}

/// Checks that each chapter named in the table of contents opens a page of the body.
pub struct TocTitleParityChecker;

impl TocTitleParityChecker {
    pub fn category(&self) -> (r: &'static str)
        ensures
            r@ == "content"@,
    {
        "content"
    }

    pub fn name(&self) -> (r: &'static str)
        ensures
            r@ == "toc_title_parity"@,
    {
        "toc_title_parity"
    }

    /// Finds the table-of-contents page, reads its entries, and for every
    /// chapter or appendix entry looks for a body page whose heading matches.
    /// `None` exactly on the inputs where slicing a heading or a title at a
    /// non-boundary byte would panic.
    pub fn check(&self, pages: &[PageText]) -> (r: Option<CheckResult>)
        ensures
            match r {
                Some(c) => toc_parity(pages@) == Some(c@),
                None => toc_parity(pages@) is None,
            },
    {
        let toc = match find_toc_page(pages) {
            Some(i) => i,
            None => {
                let empty: Vec<EvidenceItem> = Vec::new();
                assert(empty@.map_values(|e: EvidenceItem| e@) =~= seq![]);
                return Some(make_result(Status::Error, empty, chars_of("TOC page not found")));
            },
        };
        let entries = extract_toc_entries(&pages[toc].lines);
        let toc_page = pages[toc].page_number;
        let ghost ev = toc_entries_of(texts(pages@[toc as int].lines@));
        let mut violations: Vec<EvidenceItem> = Vec::new();
        let mut checked: usize = 0;
        let mut k: usize = 0;
        assert(violations@.map_values(|e: EvidenceItem| e@) =~= seq![]);
        while k < entries.len()
            invariant
                k <= entries.len(),
                entry_views(entries@) == ev,
                checked <= k,
                violations.len() <= k,
                toc_parity(pages@) == match parity_from(ev, pages@, toc_page, 0, seq![], 0) {
                    None => None,
                    Some((notes, c)) => Some(
                        if notes.len() > 0 {
                            outcome(
                                Status::Fail,
                                notes,
                                decimal(notes.len()) + "/"@ + decimal(c)
                                    + " chapter title(s) mismatch between TOC and body"@,
                            )
                        } else {
                            outcome(
                                Status::Pass,
                                seq![],
                                "All "@ + decimal(c) + " chapter titles match between TOC and body"@,
                            )
                        },
                    ),
                },
                parity_from(ev, pages@, toc_page, 0, seq![], 0) == parity_from(
                    ev,
                    pages@,
                    toc_page,
                    k as int,
                    violations@.map_values(|e: EvidenceItem| e@),
                    checked as nat,
                ),
            decreases entries.len() - k,
        {
            let title = &entries[k].0;
            assert(ev[k as int].0 == title@);
            if contains_chapter_keyword(title.as_str()) {
                let entry_norm = normalize_title(title.as_str());
                match find_heading(entry_norm.as_str(), pages, toc_page) {
                    None => {
                        return None;
                    },
                    Some(found) => {
                        checked = checked + 1;
                        if !found {
                            match shown_title(title.as_str()) {
                                None => {
                                    return None;
                                },
                                Some(shown) => {
                                    let sc = chars_of(shown.as_str());
                                    let mut ex = chars_of("TOC: \"");
                                    append_chars(&mut ex, &sc);
                                    let tail = chars_of("\" \u{2014} no matching heading found in body");
                                    append_chars(&mut ex, &tail);
                                    let ghost before = violations@.map_values(|e: EvidenceItem| e@);
                                    let note = make_note(0, ex);
                                    violations.push(note);
                                    assert(violations@.map_values(|e: EvidenceItem| e@) =~= before.push(
                                        missing_title_note(shown@),
                                    ));
                                },
                            }
                        }
                    },
                }
            }
            k = k + 1;
        }
        let nv = violations.len();
        if nv > 0 {
            let mut detail = decimal_exec(nv);
            let slash = chars_of("/");
            append_chars(&mut detail, &slash);
            let c = decimal_exec(checked);
            append_chars(&mut detail, &c);
            let tail = chars_of(" chapter title(s) mismatch between TOC and body");
            append_chars(&mut detail, &tail);
            Some(make_result(Status::Fail, violations, detail))
        } else {
            let mut detail = chars_of("All ");
            let c = decimal_exec(checked);
            append_chars(&mut detail, &c);
            let tail = chars_of(" chapter titles match between TOC and body");
            append_chars(&mut detail, &tail);
            let empty: Vec<EvidenceItem> = Vec::new();
            assert(empty@.map_values(|e: EvidenceItem| e@) =~= seq![]);
            Some(make_result(Status::Pass, empty, detail))
        }
    }
}

} // verus!
