//! Which checks of a spec run, and how each is settled: manual checks are
//! answered at once, automatable ones are handed to their registered checker,
//! and a check naming no registered checker is an error.

use vstd::prelude::*;
use crate::checkers::{
    checker_key, get_checker, make_result, outcome, CheckResult, CheckResultView, CheckerKind,
    EvidenceItem, EvidenceView, Status,
};
use crate::text::{append_chars, chars_eq, chars_of};

verus! {

/// Filters on the checks to run: by id (an empty list selects all) and by category.
#[derive(Debug, Clone, Default)]
pub struct CheckOptions {
    pub check_ids: Option<Vec<String>>,
    pub category: Option<String>,
}

/// One check of an institution spec, as the engine reads it.
#[derive(Debug, Clone)]
pub struct CheckDef {
    pub id: String,
    pub category: String,
    pub checker: String,
    pub automatable: bool,
    pub review_hint: Option<String>,
}

/// How a selected check is settled.
#[derive(Debug, Clone)]
pub enum CheckStep {
    /// Settled without running a checker.
    Settled(CheckResult),
    /// To be run by the checker of this kind; its result takes this check id.
    Run { check_id: String, kind: CheckerKind },
}

/// The check passes the filters.
pub open spec fn selected(d: CheckDef, o: CheckOptions) -> bool {
    (match o.check_ids {
        Some(ids) => ids@.len() == 0 || ids@.map_values(|s: String| s@).contains(d.id@),
        None => true,
    }) && (match o.category {
        Some(c) => d.category@ == c@,
        None => true,
    })
}

/// The selected checks, in spec order.
pub open spec fn selected_defs(ds: Seq<CheckDef>, o: CheckOptions) -> Seq<CheckDef>
    decreases ds.len(),
{
    if ds.len() == 0 {
        seq![]
    } else if selected(ds.last(), o) {
        selected_defs(ds.drop_last(), o).push(ds.last())
    } else {
        selected_defs(ds.drop_last(), o)
    }
}

/// Some checker is registered under the check's category and checker name.
pub open spec fn has_checker(d: CheckDef) -> bool {
    exists|k: CheckerKind| checker_key(k) == (d.category@, d.checker@)
}

/// The step fits the check: a manual check is settled as manual with its
/// review hint ("Manual review required" without one); an automatable one
/// runs the checker registered under its key, or, with none registered, is
/// settled as an error naming the key.
pub open spec fn step_fits(s: CheckStep, d: CheckDef) -> bool {
    if !d.automatable {
        s matches CheckStep::Settled(r) && r@ == CheckResultView {
            check_id: d.id@,
            ..outcome(
                Status::Manual,
                seq![],
                match d.review_hint {
                    Some(h) => h@,
                    None => "Manual review required"@,
                },
            )
        }
    } else if has_checker(d) {
        s matches CheckStep::Run { check_id, kind } && check_id@ == d.id@ && checker_key(kind) == (
        d.category@, d.checker@)
    } else {
        s matches CheckStep::Settled(r) && r@ == CheckResultView {
            check_id: d.id@,
            ..outcome(
                Status::Error,
                seq![],
                "No checker registered for "@ + d.category@ + "/"@ + d.checker@,
            )
        }
    }
}

fn is_selected(d: &CheckDef, o: &CheckOptions) -> (r: bool)
    ensures
        r == selected(*d, *o),
{
    let by_id = match &o.check_ids {
        Some(ids) => {
            if ids.len() == 0 {
                true
            } else {
                let ghost iv = ids@.map_values(|s: String| s@);
                let idc = chars_of(d.id.as_str());
                let mut found = false;
                let mut i: usize = 0;
                while i < ids.len()
                    invariant
                        i <= ids.len(),
                        iv == ids@.map_values(|s: String| s@),
                        idc@ == d.id@,
                        found == (exists|k: int| 0 <= k < i && iv[k] == d.id@),
                    decreases ids.len() - i,
                {
                    let c = chars_of(ids[i].as_str());
                    assert(iv[i as int] == c@);
                    if chars_eq(&c, &idc) {
                        found = true;
                    }
                    i = i + 1;
                    assert(found == (exists|k: int| 0 <= k < i && iv[k] == d.id@)) by {
                        if found {
                            if iv[i - 1] != d.id@ {
                                let k = choose|k: int| 0 <= k < i - 1 && iv[k] == d.id@;
                                assert(0 <= k < i && iv[k] == d.id@);
                            }
                        }
                    }
                }
                found
            }
        },
        None => true,
    };
    let by_cat = match &o.category {
        Some(c) => chars_eq(&chars_of(d.category.as_str()), &chars_of(c.as_str())),
        None => true,
    };
    by_id && by_cat
}

fn settled(id: &String, status: Status, detail: Vec<char>) -> (r: CheckResult)
    ensures
        r@ == (CheckResultView { check_id: id@, ..outcome(status, seq![], detail@) }),
{
    let empty: Vec<EvidenceItem> = Vec::new();
    assert(empty@.map_values(|e: EvidenceItem| e@) =~= seq![]);
    let mut r = make_result(status, empty, detail);
    r.check_id = id.clone();
    r
}

/// Settles the selected checks of a spec or names the checker that runs each.
pub fn plan_checks(checks: &[CheckDef], options: &CheckOptions) -> (r: Vec<CheckStep>)
    ensures
        r@.len() == selected_defs(checks@, *options).len(),
        forall|i: int|
            0 <= i < r@.len() ==> step_fits(#[trigger] r@[i], selected_defs(checks@, *options)[i]),
{
    let mut steps: Vec<CheckStep> = Vec::new();
    let mut i: usize = 0;
    while i < checks.len()
        invariant
            i <= checks.len(),
            steps@.len() == selected_defs(checks@.subrange(0, i as int), *options).len(),
            forall|j: int|
                0 <= j < steps@.len() ==> step_fits(
                    #[trigger] steps@[j],
                    selected_defs(checks@.subrange(0, i as int), *options)[j],
                ),
        decreases checks.len() - i,
    {
        let ghost pre = checks@.subrange(0, i as int);
        let ghost post = checks@.subrange(0, i + 1);
        assert(post.drop_last() =~= pre);
        let d = &checks[i];
        if is_selected(d, options) {
            let step = if !d.automatable {
                let hint = match &d.review_hint {
                    Some(h) => chars_of(h.as_str()),
                    None => chars_of("Manual review required"),
                };
                CheckStep::Settled(settled(&d.id, Status::Manual, hint))
            } else {
                match get_checker(d.category.as_str(), d.checker.as_str()) {
                    Some(kind) => CheckStep::Run { check_id: d.id.clone(), kind },
                    None => {
                        let mut detail = chars_of("No checker registered for ");
                        append_chars(&mut detail, &chars_of(d.category.as_str()));
                        append_chars(&mut detail, &chars_of("/"));
                        append_chars(&mut detail, &chars_of(d.checker.as_str()));
                        CheckStep::Settled(settled(&d.id, Status::Error, detail))
                    },
                }
            };
            assert(step_fits(step, post.last()));
            steps.push(step);
            assert(selected_defs(post, *options) == selected_defs(pre, *options).push(post.last()));
        }
        i = i + 1;
    }
    assert(checks@.subrange(0, checks.len() as int) =~= checks@);
    steps
}

} // verus!
