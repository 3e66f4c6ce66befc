use scholarpress::calibration::{
    format_text, frequencies_for, record_results, CalibrationReport, CheckFrequency, DocumentResult,
};
use scholarpress::checkers::{CheckResult, Status};
use scholarpress::report::Summary;

fn make_freq(check_id: &str, category: &str, pass: usize, fail: usize, total: usize) -> CheckFrequency {
    CheckFrequency {
        check_id: check_id.to_string(),
        category: category.to_string(),
        pass_count: pass,
        fail_count: fail,
        manual_count: 0,
        error_count: 0,
        total_documents: total,
        fail_documents: vec![],
        fail_details: vec![],
    }
}

fn make_report(freqs: Vec<CheckFrequency>) -> CalibrationReport {
    CalibrationReport {
        spec_path: "spec.yaml".to_string(),
        corpus_path: "corpus/".to_string(),
        documents: vec!["doc1.pdf".to_string(), "doc2.pdf".to_string()],
        document_results: vec![],
        check_frequencies: freqs,
    }
}

#[test]
fn test_systemic_fail_count() {
    let report = make_report(vec![
        make_freq("margins", "layout", 0, 2, 2),
        make_freq("font_size", "typography", 1, 1, 2),
        make_freq("justification", "typography", 2, 0, 2),
    ]);
    assert_eq!(report.systemic_fail_count(), 2);
    assert_eq!(report.automated_fail_count(), 2);
}

#[test]
fn test_systemic_threshold() {
    let report = make_report(vec![make_freq("margins", "layout", 1, 1, 2)]);
    assert_eq!(report.systemic_fail_count(), 1);
}

#[test]
fn test_isolated_not_systemic() {
    let report = make_report(vec![make_freq("margins", "layout", 2, 1, 3)]);
    assert_eq!(report.systemic_fail_count(), 0);
    assert_eq!(report.automated_fail_count(), 1);
}

#[test]
fn test_format_text_structure() {
    let report = make_report(vec![
        make_freq("margins", "layout", 0, 2, 2),
        make_freq("font_size", "typography", 2, 0, 2),
        make_freq("human_check", "human", 0, 0, 2),
    ]);
    let output = format_text(&report);
    assert!(output.contains("CALIBRATION REPORT"));
    assert!(output.contains("AUTOMATED CHECKS"));
    assert!(output.contains("MANUAL CHECKS"));
    assert!(output.contains("SYSTEMIC"));
    assert!(output.contains("clean"));
}

#[test]
fn manual_checks_are_not_automated_failures() {
    let report = make_report(vec![make_freq("review", "human", 0, 3, 3)]);
    assert_eq!(report.automated_fail_count(), 0);
    assert_eq!(report.systemic_fail_count(), 0);
}

#[test]
fn format_text_lines() {
    let mut margins = make_freq("margins", "layout", 1, 1, 3);
    margins.fail_details = vec!["[b.pdf] too narrow".to_string()];
    let mut report = make_report(vec![margins, make_freq("review", "human", 0, 0, 3)]);
    report.check_frequencies[1].manual_count = 3;
    report.document_results = vec![DocumentResult {
        document: "a.pdf".to_string(),
        results: vec![],
        summary: Summary { pass: 3, fail: 0, manual: 1, error: 2 },
    }];
    let out = format_text(&report);
    let lines: Vec<&str> = out.split('\n').collect();
    assert_eq!(lines[3], "Spec:     spec.yaml");
    assert_eq!(lines[4], "Corpus:   corpus/ (2 documents)");
    assert_eq!(lines[7], "  - doc1.pdf");
    assert!(out.contains("  a.pdf: 3 PASS, 1 MANUAL, 2 ERROR"));
    assert!(out.contains("margins [layout]\n  PASS=1 FAIL=1 ERROR=0\n  STATUS: isolated (1/3)\n    [b.pdf] too narrow\n"));
    assert!(out.contains("review [human] \u{2014} MANUAL review (3/3)"));
    assert!(out.contains("Automated checks with >=1 FAIL: 1"));
    assert!(out.ends_with(&format!("Systemic FAILs (>=50% of corpus): 0\n{}", "=".repeat(70))));
}

#[test]
fn tallies_follow_results() {
    let checks = vec![
        ("margins".to_string(), "layout".to_string()),
        ("review".to_string(), "human".to_string()),
        ("margins".to_string(), "typography".to_string()),
    ];
    let mut freqs = frequencies_for(&checks);
    assert_eq!(freqs.len(), 2);
    assert_eq!(freqs[0].category, "typography");
    let results = vec![
        CheckResult { check_id: "margins".to_string(), status: Status::Fail, evidence: vec![], detail: "narrow".to_string() },
        CheckResult { check_id: "review".to_string(), status: Status::Manual, evidence: vec![], detail: String::new() },
        CheckResult { check_id: "other".to_string(), status: Status::Pass, evidence: vec![], detail: String::new() },
    ];
    record_results(&mut freqs, "d1.pdf", &results);
    assert_eq!(freqs[0].fail_count, 1);
    assert_eq!(freqs[0].total_documents, 1);
    assert_eq!(freqs[0].fail_documents, vec!["d1.pdf".to_string()]);
    assert_eq!(freqs[0].fail_details, vec!["[d1.pdf] narrow".to_string()]);
    assert_eq!(freqs[1].manual_count, 1);
    assert_eq!(freqs[1].pass_count, 0);
}
