use scholarpress::checkers::Status;
use scholarpress::typography::{
    is_internal_font_name, is_non_body_text, normalize_family, Alignment, FontFamilyChecker,
    FontWeightChecker, JustificationChecker, PageAlignment, SpanFacts,
};

fn bits(b: (f32, f32, f32, f32)) -> (u32, u32, u32, u32) {
    (b.0.to_bits(), b.1.to_bits(), b.2.to_bits(), b.3.to_bits())
}

/// A span as the caller describes it, on page 1 of a 792pt-high page.
fn span(
    text: &str,
    font_size: f32,
    font_name: &str,
    bbox: (f32, f32, f32, f32),
    is_bold: bool,
    is_italic: bool,
) -> SpanFacts {
    let height = 792.0f32;
    SpanFacts {
        page_number: 1,
        text: text.to_string(),
        font_name: font_name.to_string(),
        is_bold,
        is_italic,
        bbox: bits(bbox),
        in_body: !(bbox.1 >= height - 53.0) && !(bbox.0 < 36.0),
        chart_text: font_size < 10.0,
    }
}

#[test]
fn test_normalize_family_strips_prefix() {
    assert_eq!(normalize_family("SYTYAE+TimesNewRomanPSMT"), "TimesNewRoman");
}

#[test]
fn test_is_internal_font_name() {
    assert!(is_internal_font_name("TT0"));
    assert!(!is_internal_font_name("TimesNewRoman"));
}

#[test]
fn test_font_weight_normal_pass() {
    let spans = vec![span("Hello", 12.0, "Times", (100.0, 112.0, 92.0, 200.0), false, false)];
    let r = FontWeightChecker.check(&spans, "normal", None, false);
    assert_eq!(r.status, Status::Pass);
}

#[test]
fn test_font_weight_bold_fail() {
    let spans = vec![span("Bold", 12.0, "Times-Bold", (100.0, 112.0, 92.0, 200.0), true, false)];
    let r = FontWeightChecker.check(&spans, "normal", None, false);
    assert_eq!(r.status, Status::Fail);
}

#[test]
fn test_font_weight_bold_expected_pass() {
    let spans = vec![span("Bold", 12.0, "Times-Bold", (100.0, 112.0, 92.0, 200.0), true, false)];
    let r = FontWeightChecker.check(&spans, "bold", None, false);
    assert_eq!(r.status, Status::Pass);
}

#[test]
fn test_font_weight_italic_fail() {
    let spans = vec![span("Italic", 12.0, "Times-Italic", (100.0, 112.0, 92.0, 200.0), false, true)];
    let r = FontWeightChecker.check(&spans, "normal", None, false);
    assert_eq!(r.status, Status::Fail);
}

#[test]
fn test_font_weight_invert() {
    let spans = vec![span("Normal", 12.0, "Times", (100.0, 112.0, 92.0, 200.0), false, false)];
    let r = FontWeightChecker.check(&spans, "normal", None, true);
    assert_eq!(r.status, Status::Fail);
}

#[test]
fn test_font_weight_page_filter() {
    let mut s = span("Hello", 12.0, "Times", (100.0, 112.0, 92.0, 200.0), false, false);
    s.page_number = 5;
    let r = FontWeightChecker.check(&[s], "normal", Some(1), false);
    assert_eq!(r.status, Status::Pass);
}

#[test]
fn test_font_family_consistent_pass() {
    let spans = vec![
        span("A", 12.0, "TimesNewRoman", (100.0, 112.0, 92.0, 110.0), false, false),
        span("B", 12.0, "TimesNewRoman", (114.0, 126.0, 92.0, 110.0), false, false),
    ];
    let r = FontFamilyChecker.check(&spans, &[], true);
    assert_eq!(r.status, Status::Pass);
}

#[test]
fn test_font_family_mixed_fail() {
    let spans = vec![
        span("A", 12.0, "TimesNewRoman", (100.0, 112.0, 92.0, 110.0), false, false),
        span("B", 12.0, "Arial", (114.0, 126.0, 92.0, 110.0), false, false),
    ];
    let r = FontFamilyChecker.check(&spans, &[], true);
    assert_eq!(r.status, Status::Fail);
}

#[test]
fn test_font_family_skips_symbol() {
    let spans = vec![span("X", 12.0, "Symbol", (100.0, 112.0, 92.0, 200.0), false, false)];
    let r = FontFamilyChecker.check(&spans, &[], true);
    assert_eq!(r.status, Status::Pass);
}

#[test]
fn family_names_fold_computer_modern_and_styles() {
    assert_eq!(normalize_family("ABCDEF+CMR10"), "ComputerModern");
    assert_eq!(normalize_family("NewCMMath-Regular"), "ComputerModern");
    assert_eq!(normalize_family("Arial-BoldItalicMT"), "Arial");
    assert_eq!(normalize_family("Garamond-Book"), "Garamond");
    assert_eq!(normalize_family("-Helvetica-"), "Helvetica");
}

#[test]
fn internal_names_are_short_or_capital_codes() {
    assert!(is_internal_font_name("F12AB"));
    assert!(!is_internal_font_name("F12ABCD"));
    assert!(!is_internal_font_name("Arial"));
}

#[test]
fn non_body_text_kinds() {
    assert!(is_non_body_text("x = y", "CMU-Math"));
    assert!(is_non_body_text("fn main()", "DejaVuSansMono"));
    assert!(is_non_body_text(" 3.1 ", "Times"));
    assert!(!is_non_body_text("Word", "Times"));
    assert!(!is_non_body_text("   ", "Mono"));
}

#[test]
fn weight_evidence_names_weights() {
    let spans = vec![
        span("Bold", 12.0, "Times-Bold", (100.0, 112.0, 92.0, 200.0), true, false),
        span("Footer", 12.0, "Times-Bold", (760.0, 772.0, 92.0, 200.0), true, false),
    ];
    let r = FontWeightChecker.check(&spans, "normal", None, false);
    assert_eq!(r.detail, "1 span(s) violate font weight requirements");
    assert_eq!(r.evidence[0].excerpt.as_deref(), Some("Bold (bold, expected normal)"));
    let r = FontWeightChecker.check(&spans, "bold", None, true);
    assert_eq!(r.evidence[0].excerpt.as_deref(), Some("Bold (bold, should not be bold)"));
}

#[test]
fn family_outside_allowed_list_is_noted() {
    let spans = vec![
        span("Body", 12.0, "ABCDEF+Arial-BoldMT", (100.0, 112.0, 92.0, 200.0), true, false),
        span("Body", 12.0, "Times", (120.0, 132.0, 92.0, 200.0), false, false),
    ];
    let allowed = vec!["Times".to_string()];
    let r = FontFamilyChecker.check(&spans, &allowed, false);
    assert_eq!(r.status, Status::Fail);
    assert_eq!(r.evidence.len(), 1);
    assert_eq!(r.evidence[0].excerpt.as_deref(), Some("Body (Arial)"));
}

#[test]
fn family_consistency_names_modal_family() {
    let mut spans = Vec::new();
    for i in 0..3 {
        spans.push(span("Prose", 12.0, "Times", (100.0 + 14.0 * i as f32, 112.0 + 14.0 * i as f32, 92.0, 200.0), false, false));
    }
    spans.push(span("Other", 12.0, "Arial", (200.0, 212.0, 92.0, 200.0), false, false));
    let r = FontFamilyChecker.check(&spans, &[], true);
    assert_eq!(r.status, Status::Fail);
    assert_eq!(r.evidence.len(), 1);
    assert_eq!(r.evidence[0].excerpt.as_deref(), Some("Other (Arial, expected Times)"));
}

#[test]
fn test_justification_skips_sparse_pages() {
    // Page 7 holds a single span: too little body text to show an alignment.
    let pages = vec![PageAlignment { page_number: 7, footer_texts: vec![], alignment: None }];
    let r = JustificationChecker.check(&pages, true);
    assert_eq!(r.status, Status::Pass);
}

#[test]
fn test_justification_skips_early_pages() {
    // Page 3 is front matter, whatever alignment its 60 spans show.
    let pages = vec![PageAlignment { page_number: 3, footer_texts: vec![], alignment: Some(Alignment::Left) }];
    let r = JustificationChecker.check(&pages, true);
    assert_eq!(r.status, Status::Pass);
}
