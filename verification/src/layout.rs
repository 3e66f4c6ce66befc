//! Page layout checks. Their measurements are made on page coordinates by
//! the caller; the library names them and decides which pages they skip.

use vstd::prelude::*;
use crate::text::{chars_of, contains, contains_exec, lowercase, lowercase_exec};

verus! {

/// Checks the four page margins of the body pages.
pub struct MarginsChecker;

impl MarginsChecker {
    pub fn category(&self) -> (r: &'static str)
        ensures
            r@ == "layout"@,
    {
        "layout"
    }

    pub fn name(&self) -> (r: &'static str)
        ensures
            r@ == "margins"@,
    {
        "margins"
    }
}

/// Checks that left and right margins balance.
pub struct MarginSymmetryChecker;

impl MarginSymmetryChecker {
    pub fn category(&self) -> (r: &'static str)
        ensures
            r@ == "layout"@,
    {
        "layout"
    }

    pub fn name(&self) -> (r: &'static str)
        ensures
            r@ == "margin_symmetry"@,
    {
        "margin_symmetry"
    }
}

/// Lowercased page text that names a front-matter section: the acceptance
/// page, a copyright notice, the dedication, the abstract, the table of
/// contents or the curriculum vitae.
pub open spec fn names_front_matter(t: Seq<char>) -> bool {
    contains(t, "accepted by"@) || contains(t, "\u{a9}"@) || contains(t, "copyright"@) || contains(
        t,
        "dedication"@,
    ) || contains(t, "abstract"@) || contains(t, "table of contents"@) || contains(t, "curriculum vitae"@)
}

/// A page the margin checks leave out: the first page, or a page whose text
/// names a front-matter section.
pub open spec fn margin_excluded(pages: Seq<(usize, Seq<char>)>, n: usize) -> bool {
    n == 1 || exists|i: int|
        0 <= i < pages.len() && #[trigger] pages[i].0 == n && names_front_matter(lowercase(pages[i].1))
}

pub open spec fn page_text_views(pages: Seq<(usize, String)>) -> Seq<(usize, Seq<char>)> {
    pages.map_values(|p: (usize, String)| (p.0, p.1@))
}

fn names_front_matter_exec(t: &[char]) -> (r: bool)
    ensures
        r == names_front_matter(t@),
{
    contains_exec(t, &chars_of("accepted by")) || contains_exec(t, &chars_of("\u{a9}")) || contains_exec(
        t,
        &chars_of("copyright"),
    ) || contains_exec(t, &chars_of("dedication")) || contains_exec(t, &chars_of("abstract"))
        || contains_exec(t, &chars_of("table of contents")) || contains_exec(t, &chars_of("curriculum vitae"))
}

/// The numbers of the pages the margin checks leave out, given each page's
/// number and text.
pub fn margin_excluded_pages(pages: &[(usize, String)]) -> (r: Vec<usize>)
    ensures
        forall|n: usize| r@.contains(n) <==> margin_excluded(page_text_views(pages@), n),
{
    let ghost pv = page_text_views(pages@);
    let mut out: Vec<usize> = Vec::new();
    out.push(1);
    let mut i: usize = 0;
    while i < pages.len()
        invariant
            i <= pages.len(),
            pv == page_text_views(pages@),
            out@.len() > 0 && out@[0] == 1,
            forall|n: usize| #[trigger] out@.contains(n) <==> (n == 1 || exists|k: int|
                0 <= k < i && #[trigger] pv[k].0 == n && names_front_matter(lowercase(pv[k].1))),
        decreases pages.len() - i,
    {
        assert(pv[i as int] == (pages@[i as int].0, pages@[i as int].1@));
        let ghost before = out@;
        let hit = names_front_matter_exec(&lowercase_exec(&chars_of(pages[i].1.as_str())));
        assert(hit == names_front_matter(lowercase(pv[i as int].1)));
        if hit {
            out.push(pages[i].0);
            assert forall|n: usize| #[trigger] out@.contains(n) <==> (n == 1 || exists|k: int|
                0 <= k < i + 1 && #[trigger] pv[k].0 == n && names_front_matter(lowercase(pv[k].1))) by {
                if out@.contains(n) {
                    let j = choose|j: int| 0 <= j < out@.len() && out@[j] == n;
                    if j < before.len() {
                        assert(before[j] == n);
                        assert(before.contains(n));
                    } else {
                        assert(pv[i as int].0 == n);
                    }
                }
                if n != 1 && exists|k: int| 0 <= k < i + 1 && #[trigger] pv[k].0 == n && names_front_matter(lowercase(pv[k].1)) {
                    let k = choose|k: int| 0 <= k < i + 1 && #[trigger] pv[k].0 == n && names_front_matter(lowercase(pv[k].1));
                    if k < i {
                        assert(before.contains(n));
                        let j = choose|j: int| 0 <= j < before.len() && before[j] == n;
                        assert(out@[j] == n);
                    } else {
                        assert(out@[out@.len() - 1] == n);
                    }
                }
                if n == 1 {
                    assert(out@[0] == 1);
                }
            }
        } else {
            assert forall|n: usize| #[trigger] out@.contains(n) <==> (n == 1 || exists|k: int|
                0 <= k < i + 1 && #[trigger] pv[k].0 == n && names_front_matter(lowercase(pv[k].1))) by {
                if n != 1 && exists|k: int| 0 <= k < i + 1 && #[trigger] pv[k].0 == n && names_front_matter(lowercase(pv[k].1)) {
                    let k = choose|k: int| 0 <= k < i + 1 && #[trigger] pv[k].0 == n && names_front_matter(lowercase(pv[k].1));
                    assert(k < i);
                }
            }
        }
        i = i + 1;
    }
    out
}

} // verus!
