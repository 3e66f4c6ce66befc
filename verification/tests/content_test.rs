use scholarpress::checkers::Status;
use scholarpress::content::{
    find_committee, normalize_title, titles_match_norm, BoilerplateMatchChecker,
    line_matches_multi, BoilerplateOutcome, CommitteeOrderChecker, HumanReviewChecker, PageLines,
};

fn page(number: usize, lines: &[&str]) -> PageLines {
    PageLines { page_number: number, lines: lines.iter().map(|l| l.to_string()).collect() }
}

#[test]
fn test_normalize_title() {
    let t = normalize_title("Chapter 1: Power and Freedom");
    assert_eq!(t, "chapter 1: power and freedom");
}

#[test]
fn test_titles_match_exact() {
    assert!(titles_match_norm("chapter 1 intro", "chapter 1 intro"));
}

#[test]
fn test_titles_match_contains() {
    assert!(titles_match_norm(
        "chapter 1 power",
        "chapter 1 power and freedom in urban spaces"
    ));
}

#[test]
fn test_titles_match_overlap() {
    assert!(titles_match_norm(
        "chapter 1 power freedom urban",
        "chapter 1 power and freedom"
    ));
}

#[test]
fn test_titles_no_match() {
    assert!(!titles_match_norm("chapter 1 power", "chapter 2 methods"));
}

#[test]
fn test_boilerplate_match_pass() {
    let pages = vec![page(
        1,
        &[
            "Submitted to the faculty",
            "in partial fulfillment",
            "for the degree",
            "Doctor of Philosophy",
            "in the department,",
            "Indiana University",
            "May 2025",
        ],
    )];
    let template = "Submitted to the faculty\nin partial fulfillment\nfor the degree\n{degree}\nin the {department},\nIndiana University\n{month} {year}\n";
    let r = BoilerplateMatchChecker.evaluate(template, Some(1), &pages);
    assert_eq!(r.status(), Status::Pass);
}

#[test]
fn test_boilerplate_match_fail() {
    let pages = vec![page(1, &["Something else"])];
    let r = BoilerplateMatchChecker.evaluate("Submitted to the faculty\n", Some(1), &pages);
    assert_eq!(r.status(), Status::Fail);
}

#[test]
fn test_boilerplate_empty_template_pass() {
    let r = BoilerplateMatchChecker.evaluate("", None, &[]);
    assert_eq!(r.status(), Status::Pass);
}

#[test]
fn test_human_review_manual() {
    let r = HumanReviewChecker.check(Some("Check this"));
    assert_eq!(r.status, Status::Manual);
    assert_eq!(r.detail, "Check this");
}

#[test]
fn test_committee_chair_not_first() {
    let pages = vec![page(2, &["Doctoral Committee", "Jane Smith, Ph.D.", "John Doe, Ph.D., Chair"])];
    let r = CommitteeOrderChecker.check(&pages, true, None);
    assert_eq!(r.status, Status::Fail);
}

#[test]
fn human_review_defaults_its_prompt() {
    let r = HumanReviewChecker.check(None);
    assert_eq!(r.status, Status::Manual);
    assert_eq!(r.detail, "Manual review required");
    assert!(r.evidence.is_empty());
}

#[test]
fn boilerplate_scores_best_page() {
    let pages = vec![page(1, &["Nothing here"]), page(2, &["Submitted to the faculty", "of Indiana University"])];
    let r = BoilerplateMatchChecker.evaluate(
        "Submitted to the faculty\n\nof {school}\nin May\n",
        None,
        &pages,
    );
    assert_eq!(r, BoilerplateOutcome::Scored { best_match: 2, template_lines: 3, passed: false });
    assert_eq!(r.status(), Status::Fail);
}

#[test]
fn boilerplate_page_filter_skips_other_pages() {
    let pages = vec![page(1, &["Submitted to the faculty"])];
    let r = BoilerplateMatchChecker.evaluate("Submitted to the faculty\n", Some(2), &pages);
    assert_eq!(r, BoilerplateOutcome::Scored { best_match: 0, template_lines: 1, passed: false });
}

#[test]
fn committee_members_and_chair_flags() {
    let lines: Vec<String> = vec![
        "Doctoral Committee".to_string(),
        "____________".to_string(),
        "John Doe, Ph.D., Chair".to_string(),
        "Jane Smith, Ph.D.".to_string(),
        "May 5, 2025".to_string(),
        "Date of Defense".to_string(),
        "Extra Person, Ph.D.".to_string(),
    ];
    let c = find_committee(&lines);
    assert_eq!(
        c,
        vec![("John Doe, Ph.D., Chair".to_string(), true), ("Jane Smith, Ph.D.".to_string(), false)]
    );
}

#[test]
fn committee_chair_first_passes_with_count() {
    let pages = vec![page(3, &["Doctoral Committee", "John Doe, Ph.D., Chair", "Jane Smith, Ph.D."])];
    let r = CommitteeOrderChecker.check(&pages, true, None);
    assert_eq!(r.status, Status::Pass);
    assert_eq!(r.detail, "Committee chair listed first (2 members)");
}

#[test]
fn committee_chair_position_is_reported() {
    let pages = vec![page(2, &["Doctoral Committee", "Jane Smith, Ph.D.", "John Doe, Ph.D., Chair"])];
    let r = CommitteeOrderChecker.check(&pages, true, None);
    assert_eq!(r.detail, "Committee chair not listed first");
    assert_eq!(r.evidence.len(), 1);
    assert_eq!(r.evidence[0].page, 2);
    assert_eq!(
        r.evidence[0].excerpt.as_deref(),
        Some("Chair 'John Doe, Ph.D., Chair' listed at position 2, should be first")
    );
}

#[test]
fn committee_without_chair_label_fails() {
    let pages = vec![page(2, &["Doctoral Committee", "Jane Smith, Ph.D.", "John Doe, Ph.D."])];
    let r = CommitteeOrderChecker.check(&pages, false, None);
    assert_eq!(r.status, Status::Fail);
    assert_eq!(r.detail, "Chair not explicitly labeled");
}

#[test]
fn committee_missing_is_an_error() {
    let pages = vec![page(1, &["Abstract", "Some text"])];
    let r = CommitteeOrderChecker.check(&pages, true, None);
    assert_eq!(r.status, Status::Error);
    assert_eq!(r.detail, "Committee not found on specified page");
}

#[test]
fn normalize_title_unifies_dashes_and_drops_symbols() {
    assert_eq!(normalize_title("  Chapter 2 \u{2014}\u{2013} Results & Discussion! "), "chapter 2 - results  discussion");
}

#[test]
fn template_dots_match_only_literal_dots() {
    let lines = vec!["Ph.D. in Music".to_string()];
    assert_eq!(line_matches_multi("Ph.D. in {field}", &lines, 0), (true, 1));
    let other = vec!["PhxD. in Music".to_string()];
    assert!(!line_matches_multi("Ph.D. in {field}", &other, 0).0);
}

#[test]
fn boilerplate_pass_result_text() {
    let outcome = BoilerplateOutcome::Scored { best_match: 7, template_lines: 7, passed: true };
    let r = BoilerplateMatchChecker.result_of(outcome, Some(1), 100);
    assert_eq!(r.status, Status::Pass);
    assert!(r.evidence.is_empty());
    assert_eq!(r.detail, "Template text matches (7/7 lines)");
}

#[test]
fn boilerplate_fail_result_evidence() {
    let pages = vec![page(1, &["Something else"])];
    let outcome = BoilerplateMatchChecker.evaluate("Submitted to the faculty\n", Some(1), &pages);
    let r = BoilerplateMatchChecker.result_of(outcome, Some(1), 0);
    assert_eq!(r.status, Status::Fail);
    assert_eq!(r.detail, "Template text not found on specified page (0/1 lines, 0%)");
    assert_eq!(r.evidence.len(), 1);
    assert_eq!(r.evidence[0].page, 1);
    assert_eq!(r.evidence[0].excerpt.as_deref(), Some("Only 0/1 template lines matched (0%)"));
}

#[test]
fn boilerplate_fail_without_page_filter_notes_page_zero() {
    let outcome = BoilerplateOutcome::Scored { best_match: 2, template_lines: 3, passed: false };
    let r = BoilerplateMatchChecker.result_of(outcome, None, 67);
    assert_eq!(r.evidence[0].page, 0);
    assert_eq!(r.detail, "Template text not found on specified page (2/3 lines, 67%)");
}

#[test]
fn boilerplate_without_template_result() {
    let r = BoilerplateMatchChecker.result_of(BoilerplateOutcome::NoTemplate, None, 0);
    assert_eq!(r.status, Status::Pass);
    assert_eq!(r.detail, "No template provided");
    assert!(r.evidence.is_empty());
}
