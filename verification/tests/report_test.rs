use scholarpress::annotate::{annotation_targets, ascii_only, note_contents, summary_text};
use scholarpress::checkers::{CheckResult, EvidenceItem, Status};
use scholarpress::report::{build_report, format_text_with_options, Report};

fn bits(b: (f32, f32, f32, f32)) -> (u32, u32, u32, u32) {
    (b.0.to_bits(), b.1.to_bits(), b.2.to_bits(), b.3.to_bits())
}

fn make_result(status: Status) -> CheckResult {
    CheckResult {
        check_id: "test_check".to_string(),
        status,
        evidence: vec![],
        detail: "test detail".to_string(),
    }
}

/// Box labels as a caller renders them: " @ (x,y,z,w)" with whole points.
fn labels(report: &Report) -> Vec<Vec<String>> {
    report
        .results
        .iter()
        .map(|r| {
            r.evidence
                .iter()
                .map(|e| match e.bbox {
                    Some(b) => format!(
                        " @ ({:.0},{:.0},{:.0},{:.0})",
                        f32::from_bits(b.0),
                        f32::from_bits(b.1),
                        f32::from_bits(b.2),
                        f32::from_bits(b.3)
                    ),
                    None => String::new(),
                })
                .collect()
        })
        .collect()
}

fn format_text(report: &Report) -> String {
    format_text_with_options(report, false, &labels(report))
}

fn sample_report() -> Report {
    build_report(vec![
        CheckResult {
            check_id: "test_inplace".to_string(),
            status: Status::Fail,
            detail: "margins too small".to_string(),
            evidence: vec![EvidenceItem {
                page: 1,
                bbox: Some(bits((100.0, 120.0, 200.0, 300.0))),
                excerpt: Some("1 inch".to_string()),
            }],
        },
        CheckResult {
            check_id: "test_global".to_string(),
            status: Status::Fail,
            detail: "missing section".to_string(),
            evidence: vec![EvidenceItem { page: 3, bbox: None, excerpt: Some("Abstract".to_string()) }],
        },
        CheckResult {
            check_id: "test_pass".to_string(),
            status: Status::Pass,
            detail: "ok".to_string(),
            evidence: vec![],
        },
    ])
}

#[test]
fn test_summary_counts() {
    let results = vec![
        make_result(Status::Pass),
        make_result(Status::Pass),
        make_result(Status::Fail),
        make_result(Status::Manual),
        make_result(Status::Error),
    ];
    let report = build_report(results);
    assert_eq!(report.summary.pass, 2);
    assert_eq!(report.summary.fail, 1);
    assert_eq!(report.summary.manual, 1);
    assert_eq!(report.summary.error, 1);
}

#[test]
fn test_format_text_includes_statuses() {
    let results = vec![make_result(Status::Pass), make_result(Status::Fail)];
    let report = build_report(results);
    let output = format_text(&report);
    assert!(output.contains("[PASS]"));
    assert!(output.contains("[FAIL]"));
    assert!(output.contains("PASS, 1 FAIL"));
}

#[test]
fn test_format_text_includes_evidence() {
    let results = vec![CheckResult {
        check_id: "test".to_string(),
        status: Status::Fail,
        evidence: vec![EvidenceItem {
            page: 5,
            bbox: Some(bits((10.0, 22.0, 30.0, 44.0))),
            excerpt: Some("bad text".to_string()),
        }],
        detail: "found issue".to_string(),
    }];
    let report = build_report(results);
    let output = format_text(&report);
    assert!(output.contains("page 5"));
    assert!(output.contains("bad text"));
    assert!(output.contains("found issue"));
}

#[test]
fn test_empty_report() {
    let report = build_report(vec![]);
    assert_eq!(report.summary.pass, 0);
    assert_eq!(report.summary.fail, 0);
    assert_eq!(report.results.len(), 0);
    let output = format_text(&report);
    assert!(output.contains("0 PASS"));
}

#[test]
fn quiet_report_lists_only_failures() {
    let report = build_report(vec![make_result(Status::Pass), make_result(Status::Error)]);
    let out = format_text_with_options(&report, true, &labels(&report));
    assert_eq!(out, "\n[ERROR] test_check\n  test detail\nSummary: 1 PASS, 0 FAIL, 0 MANUAL, 1 ERROR");
}

#[test]
fn full_report_layout() {
    let report = build_report(vec![CheckResult {
        check_id: "m".to_string(),
        status: Status::Fail,
        evidence: vec![EvidenceItem { page: 2, bbox: Some(bits((10.0, 22.4, 30.0, 44.6))), excerpt: None }],
        detail: String::new(),
    }]);
    let out = format_text(&report);
    let rule = "=".repeat(60);
    let expected = format!(
        "{rule}\nDISSERTATION FORMAT CHECK REPORT\n{rule}\n\n[FAIL] m\n    [page 2 @ (10,22,30,45)] \n\n{}\nSummary: 0 PASS, 1 FAIL, 0 MANUAL, 0 ERROR\n{rule}",
        "\u{2500}".repeat(60)
    );
    assert_eq!(out, expected);
}

#[test]
fn note_contents_includes_fields() {
    let s = note_contents("global_margins", "FAIL", "margins too small", Some("1 inch"));
    assert!(s.contains("[global_margins] FAIL"));
    assert!(s.contains("margins too small"));
    assert!(s.contains("1 inch"));
}

#[test]
fn note_contents_exact_text() {
    assert_eq!(note_contents("a", "FAIL", "d", Some("ex")), "[a] FAIL\nd\n\u{201c}ex\u{201d}");
    assert_eq!(note_contents("a", "ERROR", "d", None), "[a] ERROR\nd");
}

#[test]
fn summary_text_lists_document_level_only() {
    let text = summary_text(&sample_report());
    assert!(text.contains("test_global"));
    assert!(text.contains("missing section"));
    assert!(text.contains("Fail: 2"));
    assert!(text.contains("Pass: 1"));
    assert!(!text.contains("test_inplace"), "in-place finding must not be duplicated");
}

#[test]
fn summary_text_without_document_findings() {
    let report = build_report(vec![make_result(Status::Pass)]);
    let text = summary_text(&report);
    assert!(text.contains("(none - all findings are highlighted in place)"));
    assert!(text.ends_with("In-place findings are highlighted and annotated on their pages."));
}

#[test]
fn ascii_only_replaces_non_ascii() {
    assert_eq!(ascii_only("caf\u{e9} \u{201c}x\u{201d}"), "caf? ?x?");
    assert_eq!(ascii_only("plain"), "plain");
}

#[test]
fn annotation_targets_skip_passes_and_foreign_pages() {
    let mut report = sample_report();
    report.results.push(CheckResult {
        check_id: "far".to_string(),
        status: Status::Error,
        detail: String::new(),
        evidence: vec![
            EvidenceItem { page: 9, bbox: Some(bits((1.0, 2.0, 3.0, 4.0))), excerpt: None },
            EvidenceItem { page: 0, bbox: Some(bits((1.0, 2.0, 3.0, 4.0))), excerpt: None },
            EvidenceItem { page: 2, bbox: Some(bits((1.0, 2.0, 3.0, 4.0))), excerpt: None },
        ],
    });
    assert_eq!(annotation_targets(&report, 3), vec![(0, 0), (3, 2)]);
}
