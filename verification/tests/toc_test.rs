use scholarpress::checkers::Status;
use scholarpress::toc_details::{
    has_trailing_page_number, is_numbered_line, is_page_number_only, TocCvNoDotsChecker, TocLine,
};
use scholarpress::toc_parity::{
    extract_page_heading, extract_toc_entries, find_toc_page, PageText, TocTitleParityChecker,
};

fn bits(b: (f32, f32, f32, f32)) -> (u32, u32, u32, u32) {
    (b.0.to_bits(), b.1.to_bits(), b.2.to_bits(), b.3.to_bits())
}

fn line(text: &str, top: f32, x0: f32, x1: f32) -> TocLine {
    TocLine { bbox: bits((top, top + 12.0, x0, x1)), text: text.to_string() }
}

#[test]
fn test_toc_cv_no_dots_pass() {
    let lines = vec![
        line("table of contents entry", 100.0, 150.0, 300.0),
        line("Curriculum Vitae", 500.0, 150.0, 300.0),
    ];
    let r = TocCvNoDotsChecker.check(Some(5), &lines);
    assert_eq!(r.status, Status::Pass);
}

#[test]
fn test_toc_cv_no_dots_fail() {
    let lines = vec![
        line("table of contents entry", 100.0, 150.0, 300.0),
        line("Curriculum Vitae ..... 250", 500.0, 150.0, 550.0),
    ];
    let r = TocCvNoDotsChecker.check(Some(5), &lines);
    assert_eq!(r.status, Status::Fail);
}

#[test]
fn cv_check_reports_dots_and_number_separately() {
    let lines = vec![line("Curriculum Vitae ..... 250", 500.0, 150.0, 550.0)];
    let r = TocCvNoDotsChecker.check(Some(5), &lines);
    assert_eq!(r.detail, "CV entry in TOC has leader dots or page number");
    let excerpts: Vec<&str> = r.evidence.iter().map(|e| e.excerpt.as_deref().unwrap()).collect();
    assert_eq!(excerpts, vec!["CV entry has leader dots", "CV entry has page number"]);
    assert_eq!(r.evidence[0].page, 5);
    assert_eq!(r.evidence[0].bbox, Some(bits((500.0, 512.0, 150.0, 550.0))));
}

#[test]
fn cv_check_without_toc_page_is_an_error() {
    let r = TocCvNoDotsChecker.check(None, &[]);
    assert_eq!(r.status, Status::Error);
    assert_eq!(r.detail, "TOC page not found");
}

#[test]
fn cv_check_without_cv_entry_passes() {
    let r = TocCvNoDotsChecker.check(Some(3), &[line("Chapter 1 ..... 1", 100.0, 100.0, 500.0)]);
    assert_eq!(r.status, Status::Pass);
    assert_eq!(r.detail, "No CV entry found in TOC");
}

#[test]
fn page_number_line_shapes() {
    assert!(is_page_number_only("  42 "));
    assert!(!is_page_number_only("Chapter 1"));
    assert!(has_trailing_page_number("Chapter 2: Methods 15"));
    assert!(!has_trailing_page_number("Chapter 2: Methods 12345"));
    assert!(!has_trailing_page_number("Curriculum Vitae"));
    assert!(is_numbered_line("   "));
    assert!(is_numbered_line("Results 42"));
}

#[test]
fn toc_entries_read_title_and_page() {
    let lines = vec![
        "TABLE OF CONTENTS".to_string(),
        "  Chapter 1: Introduction ......... 1 ".to_string(),
        "Chapter 2: Methods .. 15".to_string(),
        "Appendix A . 99".to_string(),
    ];
    let entries = extract_toc_entries(&lines);
    assert_eq!(
        entries,
        vec![("Chapter 1: Introduction".to_string(), 1), ("Chapter 2: Methods".to_string(), 15)]
    );
}

#[test]
fn page_heading_starts_at_chapter_keyword() {
    assert_eq!(
        extract_page_heading("12 CHAPTER 3 Results and more text").as_deref(),
        Some("CHAPTER 3 Results and more text")
    );
    assert_eq!(extract_page_heading("Appendix B Data").as_deref(), Some("Appendix B Data"));
    assert_eq!(extract_page_heading("no heading here").as_deref(), Some(""));
    let long = format!("Chapter 9 {}", "x".repeat(100));
    assert_eq!(extract_page_heading(&long).unwrap().chars().count(), 80);
}

fn toc_pages(with_methods: bool) -> Vec<PageText> {
    let mut pages = vec![
        PageText {
            page_number: 3,
            span_texts: vec!["TABLE".to_string(), "OF CONTENTS".to_string()],
            lines: vec![
                "TABLE OF CONTENTS".to_string(),
                "Chapter 1: Introduction ...... 1".to_string(),
                "Chapter 2: Methods ...... 15".to_string(),
            ],
            body_text: "TABLE OF CONTENTS Chapter 1: Introduction".to_string(),
        },
        PageText {
            page_number: 4,
            span_texts: vec![],
            lines: vec![],
            body_text: "Chapter 1: Introduction This work studies cities.".to_string(),
        },
    ];
    if with_methods {
        pages.push(PageText {
            page_number: 5,
            span_texts: vec![],
            lines: vec![],
            body_text: "Chapter 2: Methods".to_string(),
        });
    }
    pages
}

#[test]
fn toc_titles_match_body_headings() {
    let pages = toc_pages(true);
    assert_eq!(find_toc_page(&pages), Some(0));
    let r = TocTitleParityChecker.check(&pages).unwrap();
    assert_eq!(r.status, Status::Pass);
    assert_eq!(r.detail, "All 2 chapter titles match between TOC and body");
}

#[test]
fn toc_title_without_body_heading_fails() {
    let r = TocTitleParityChecker.check(&toc_pages(false)).unwrap();
    assert_eq!(r.status, Status::Fail);
    assert_eq!(r.detail, "1/2 chapter title(s) mismatch between TOC and body");
    assert_eq!(r.evidence[0].page, 0);
    assert_eq!(
        r.evidence[0].excerpt.as_deref(),
        Some("TOC: \"Chapter 2: Methods\" \u{2014} no matching heading found in body")
    );
}

#[test]
fn toc_missing_is_an_error() {
    let pages = vec![PageText {
        page_number: 1,
        span_texts: vec!["Abstract".to_string()],
        lines: vec![],
        body_text: String::new(),
    }];
    let r = TocTitleParityChecker.check(&pages).unwrap();
    assert_eq!(r.status, Status::Error);
    assert_eq!(r.detail, "TOC page not found");
}
