use scholarpress::checkers::{get_checker, CheckerKind, Status};
use scholarpress::engine::{plan_checks, CheckDef, CheckOptions, CheckStep};

fn def(id: &str, category: &str, checker: &str, automatable: bool, hint: Option<&str>) -> CheckDef {
    CheckDef {
        id: id.to_string(),
        category: category.to_string(),
        checker: checker.to_string(),
        automatable,
        review_hint: hint.map(|h| h.to_string()),
    }
}

fn defs() -> Vec<CheckDef> {
    vec![
        def("test_margins", "layout", "margins", false, Some("check margins")),
        def("test_font_size", "typography", "font_size", true, None),
        def("test_unknown", "layout", "bogus", true, None),
        def("test_review", "human", "review", false, None),
    ]
}

#[test]
fn plan_settles_manual_and_unknown_checks() {
    let steps = plan_checks(&defs(), &CheckOptions::default());
    assert_eq!(steps.len(), 4);
    match &steps[0] {
        CheckStep::Settled(r) => {
            assert_eq!(r.check_id, "test_margins");
            assert_eq!(r.status, Status::Manual);
            assert_eq!(r.detail, "check margins");
        }
        _ => panic!("manual check should be settled"),
    }
    match &steps[1] {
        CheckStep::Run { check_id, kind } => {
            assert_eq!(check_id, "test_font_size");
            assert_eq!(*kind, CheckerKind::FontSize);
        }
        _ => panic!("automatable check should run"),
    }
    match &steps[2] {
        CheckStep::Settled(r) => {
            assert_eq!(r.status, Status::Error);
            assert_eq!(r.detail, "No checker registered for layout/bogus");
        }
        _ => panic!("unknown checker should be an error"),
    }
    match &steps[3] {
        CheckStep::Settled(r) => assert_eq!(r.detail, "Manual review required"),
        _ => panic!("manual check should be settled"),
    }
}

#[test]
fn plan_filters_by_ids_and_category() {
    let options = CheckOptions {
        check_ids: Some(vec!["test_margins".to_string(), "test_unknown".to_string()]),
        category: None,
    };
    let ids: Vec<String> = plan_checks(&defs(), &options)
        .iter()
        .map(|s| match s {
            CheckStep::Settled(r) => r.check_id.clone(),
            CheckStep::Run { check_id, .. } => check_id.clone(),
        })
        .collect();
    assert_eq!(ids, vec!["test_margins".to_string(), "test_unknown".to_string()]);
    let options = CheckOptions { check_ids: Some(vec!["nonexistent".to_string()]), category: None };
    assert!(plan_checks(&defs(), &options).is_empty());
    let options = CheckOptions { check_ids: Some(vec![]), category: Some("typography".to_string()) };
    assert_eq!(plan_checks(&defs(), &options).len(), 1);
}

#[test]
fn registry_lookup() {
    assert_eq!(get_checker("content", "committee_order"), Some(CheckerKind::CommitteeOrder));
    assert_eq!(get_checker("structure", "toc_cv_no_dots"), Some(CheckerKind::TocCvNoDots));
    assert_eq!(get_checker("layout", "font_size"), None);
}
