//! Typography checks: font family names, body-text classification, font
//! weight and font family consistency.

use vstd::prelude::*;
use vstd::string::StringSliceAdditionalSpecFns;
use vstd::utf8::encode_utf8;
use crate::checkers::{make_note, make_result, outcome, page_note, CheckResult, CheckResultView, EvidenceItem, EvidenceView, Status};
use crate::content::page_selected;
use crate::text::{decimal, decimal_exec,
    append_chars, char_is_alphabetic, chars_of, contains, contains_exec, is_alphabetic,
    is_ascii_digit, is_ascii_upper, lowercase, lowercase_exec, starts_with, starts_with_exec,
    string_of, trim, trim_exec,
};

verus! {

/// Index of the first `c` in `s`.
pub open spec fn first_index_of(s: Seq<char>, c: char) -> Option<int>
    decreases s.len(),
{
    if s.len() == 0 {
        None
    } else {
        match first_index_of(s.drop_last(), c) {
            Some(k) => Some(k),
            None => if s.last() == c {
                Some(s.len() - 1)
            } else {
                None
            },
        }
    }
}

/// The font name without its subset tag: what follows the first `+`.
pub open spec fn without_subset_tag(s: Seq<char>) -> Seq<char> {
    match first_index_of(s, '+') {
        Some(k) => s.subrange(k + 1, s.len() as int),
        None => s,
    }
}

/// The lowercased name belongs to the Computer Modern family.
pub open spec fn is_computer_modern(lower: Seq<char>) -> bool {
    starts_with(lower, "newcm"@) || starts_with(lower, "cmr"@) || starts_with(lower, "cmbx"@)
        || starts_with(lower, "cmmi"@) || starts_with(lower, "cmsy"@) || starts_with(lower, "cmex"@)
        || starts_with(lower, "cmti"@) || starts_with(lower, "cmsl"@) || contains(
        lower,
        "computer modern"@,
    ) || starts_with(lower, "tex-math"@)
}

/// `s` with every occurrence of `p` removed, scanning left to right without
/// overlaps (`str::replace(p, "")`).
pub open spec fn remove_all(s: Seq<char>, p: Seq<char>) -> Seq<char>
    decreases s.len(),
{
    if p.len() == 0 || s.len() < p.len() {
        s
    } else if s.subrange(0, p.len() as int) == p {
        remove_all(s.subrange(p.len() as int, s.len() as int), p)
    } else {
        seq![s[0]] + remove_all(s.drop_first(), p)
    }
}

/// The style and vendor suffixes that family normalization removes, in order.
pub open spec fn family_suffixes() -> Seq<Seq<char>> {
    seq![
        "PS"@,
        "MT"@,
        "-Regular"@,
        "-BoldItalic"@,
        "-Bold"@,
        "-Italic"@,
        "-Oblique"@,
        "-Identity-H"@,
        "-Book"@,
        "-BookItalic"@,
        "-RegularItalic"@,
    ]
}

/// Removes the suffixes `ps[0..k]` in turn.
pub open spec fn remove_suffixes(s: Seq<char>, ps: Seq<Seq<char>>, k: int) -> Seq<char>
    decreases k,
{
    if k <= 0 || k > ps.len() {
        s
    } else {
        remove_all(remove_suffixes(s, ps, k - 1), ps[k - 1])
    }
}

/// `s` without leading `-` characters.
pub open spec fn trim_start_dashes(s: Seq<char>) -> Seq<char>
    decreases s.len(),
{
    if s.len() > 0 && s[0] == '-' {
        trim_start_dashes(s.drop_first())
    } else {
        s
    }
}

/// `s` without trailing `-` characters.
pub open spec fn trim_end_dashes(s: Seq<char>) -> Seq<char>
    decreases s.len(),
{
    if s.len() > 0 && s.last() == '-' {
        trim_end_dashes(s.drop_last())
    } else {
        s
    }
}

/// The family of a font name: "ComputerModern" for the Computer Modern
/// fonts, otherwise the name without subset tag, vendor and style suffixes
/// and surrounding dashes.
pub open spec fn family_of(font_name: Seq<char>) -> Seq<char> {
    let name = without_subset_tag(font_name);
    if is_computer_modern(lowercase(name)) {
        "ComputerModern"@
    } else {
        trim_end_dashes(
            trim_start_dashes(remove_suffixes(name, family_suffixes(), family_suffixes().len() as int)),
        )
    }
}

fn remove_all_exec(s: &[char], p: &[char]) -> (r: Vec<char>)
    ensures
        r@ == remove_all(s@, p@),
{
    let mut out: Vec<char> = Vec::new();
    let mut i: usize = 0;
    if p.len() == 0 {
        let mut j: usize = 0;
        while j < s.len()
            invariant
                j <= s.len(),
                out@ == s@.subrange(0, j as int),
            decreases s.len() - j,
        {
            out.push(s[j]);
            j = j + 1;
        }
        assert(s@.subrange(0, s.len() as int) =~= s@);
        return out;
    }
    assert(s@.subrange(0, s.len() as int) =~= s@);
    assert(out@ + remove_all(s@, p@) =~= remove_all(s@, p@));
    while i < s.len()
        invariant
            p.len() > 0,
            i <= s.len(),
            out@ + remove_all(s@.subrange(i as int, s.len() as int), p@) == remove_all(s@, p@),
        decreases s.len() - i,
    {
        let ghost rest = s@.subrange(i as int, s.len() as int);
        if s.len() - i >= p.len() && crate::text::occurs_at_exec(s, p, i) {
            assert(rest.subrange(0, p.len() as int) =~= s@.subrange(i as int, i + p.len()));
            assert(rest.subrange(p.len() as int, rest.len() as int) =~= s@.subrange(
                i + p.len(),
                s.len() as int,
            ));
            i = i + p.len();
        } else {
            if s.len() - i >= p.len() {
                assert(rest.subrange(0, p.len() as int) =~= s@.subrange(i as int, i + p.len()));
            }
            assert(rest.drop_first() =~= s@.subrange(i + 1, s.len() as int));
            let ghost before = out@;
            out.push(s[i]);
            assert(out@ + remove_all(s@.subrange(i + 1, s.len() as int), p@) =~= before + (seq![
                s@[i as int],
            ] + remove_all(rest.drop_first(), p@)));
            i = i + 1;
        }
    }
    assert(s@.subrange(i as int, s.len() as int) =~= Seq::<char>::empty());
    assert(out@ + Seq::<char>::empty() =~= out@);
    out
}

fn trim_dashes_exec(s: &[char]) -> (r: Vec<char>)
    ensures
        r@ == trim_end_dashes(trim_start_dashes(s@)),
{
    let mut a: usize = 0;
    assert(s@.subrange(0, s.len() as int) =~= s@);
    while a < s.len() && s[a] == '-'
        invariant
            a <= s.len(),
            trim_start_dashes(s@) == trim_start_dashes(s@.subrange(a as int, s.len() as int)),
        decreases s.len() - a,
    {
        assert(s@.subrange(a as int, s.len() as int).drop_first() =~= s@.subrange(
            a + 1,
            s.len() as int,
        ));
        a = a + 1;
    }
    let ghost mid = s@.subrange(a as int, s.len() as int);
    assert(trim_start_dashes(mid) == mid);
    let mut b: usize = s.len();
    while b > a && s[b - 1] == '-'
        invariant
            a <= b <= s.len(),
            mid == s@.subrange(a as int, s.len() as int),
            trim_end_dashes(mid) == trim_end_dashes(s@.subrange(a as int, b as int)),
        decreases b,
    {
        assert(s@.subrange(a as int, b as int).drop_last() =~= s@.subrange(a as int, b - 1));
        b = b - 1;
    }
    let mut out: Vec<char> = Vec::new();
    let mut k: usize = a;
    while k < b
        invariant
            a <= k <= b,
            b <= s.len(),
            out@ == s@.subrange(a as int, k as int),
        decreases b - k,
    {
        out.push(s[k]);
        assert(s@.subrange(a as int, k + 1) =~= s@.subrange(a as int, k as int).push(s@[k as int]));
        k = k + 1;
    }
    out
}

/// The family name of a font (see `family_of`).
pub fn normalize_family(font_name: &str) -> (r: String)
    ensures
        r@ == family_of(font_name@),
{
    let cs = chars_of(font_name);
    let mut start: usize = 0;
    let mut found = false;
    let mut i: usize = 0;
    while i < cs.len()
        invariant
            i <= cs.len(),
            found ==> 1 <= start <= i && first_index_of(cs@, '+') == Some(start - 1),
            !found ==> start == 0,
            !found ==> first_index_of(cs@.subrange(0, i as int), '+') is None,
            !found ==> forall|k: int| 0 <= k < i ==> cs@[k] != '+',
        decreases cs.len() - i,
    {
        if !found && cs[i] == '+' {
            proof {
                lemma_first_index_found(cs@, i as int);
            }
            found = true;
            start = i + 1;
        }
        i = i + 1;
        proof {
            if !found {
                assert(cs@.subrange(0, i as int).drop_last() =~= cs@.subrange(0, i - 1));
            }
        }
    }
    if !found {
        assert(cs@.subrange(0, cs.len() as int) =~= cs@);
    }
    let mut name: Vec<char> = Vec::new();
    let mut j: usize = start;
    while j < cs.len()
        invariant
            start <= j <= cs.len(),
            name@ == cs@.subrange(start as int, j as int),
        decreases cs.len() - j,
    {
        name.push(cs[j]);
        assert(cs@.subrange(start as int, j + 1) =~= cs@.subrange(start as int, j as int).push(
            cs@[j as int],
        ));
        j = j + 1;
    }
    assert(name@ == without_subset_tag(cs@)) by {
        if !found {
            assert(cs@.subrange(0, cs.len() as int) =~= cs@);
        }
    }
    let lower = lowercase_exec(&name);
    let cm = starts_with_exec(&lower, &chars_of("newcm")) || starts_with_exec(
        &lower,
        &chars_of("cmr"),
    ) || starts_with_exec(&lower, &chars_of("cmbx")) || starts_with_exec(
        &lower,
        &chars_of("cmmi"),
    ) || starts_with_exec(&lower, &chars_of("cmsy")) || starts_with_exec(
        &lower,
        &chars_of("cmex"),
    ) || starts_with_exec(&lower, &chars_of("cmti")) || starts_with_exec(
        &lower,
        &chars_of("cmsl"),
    ) || contains_exec(&lower, &chars_of("computer modern")) || starts_with_exec(
        &lower,
        &chars_of("tex-math"),
    );
    if cm {
        return string_of(&chars_of("ComputerModern"));
    }
    let suffixes: [&str; 11] = [
        "PS",
        "MT",
        "-Regular",
        "-BoldItalic",
        "-Bold",
        "-Italic",
        "-Oblique",
        "-Identity-H",
        "-Book",
        "-BookItalic",
        "-RegularItalic",
    ];
    let ghost ps = family_suffixes();
    let mut result = name;
    let mut k: usize = 0;
    while k < 11
        invariant
            k <= 11,
            ps == family_suffixes(),
            forall|m: int| 0 <= m < 11 ==> (#[trigger] suffixes@[m])@ == ps[m],
            result@ == remove_suffixes(name@, ps, k as int),
        decreases 11 - k,
    {
        let p = chars_of(suffixes[k]);
        result = remove_all_exec(&result, &p);
        k = k + 1;
    }
    let t = trim_dashes_exec(&result);
    string_of(&t)
}

proof fn lemma_first_index_found(s: Seq<char>, i: int)
    requires
        0 <= i < s.len(),
        s[i] == '+',
        forall|k: int| 0 <= k < i ==> s[k] != '+',
    ensures
        first_index_of(s, '+') == Some(i),
    decreases s.len(),
{
    if i < s.len() - 1 {
        lemma_first_index_found(s.drop_last(), i);
    } else {
        lemma_first_index_none(s.drop_last(), '+');
    }
}

proof fn lemma_first_index_none(s: Seq<char>, c: char)
    requires
        forall|k: int| 0 <= k < s.len() ==> s[k] != c,
    ensures
        first_index_of(s, c) is None,
    decreases s.len(),
{
    if s.len() > 0 {
        lemma_first_index_none(s.drop_last(), c);
    }
}

/// An internal (subset-tag style) font name: under 4 bytes, or at most 6 bytes
/// of ASCII capitals and digits only.
pub open spec fn is_internal_name(name: Seq<char>) -> bool {
    let n = encode_utf8(name).len();
    n < 4 || (n <= 6 && forall|i: int|
        0 <= i < name.len() ==> is_ascii_upper(#[trigger] name[i]) || is_ascii_digit(name[i]))
}

/// Whether a family name looks like an internal font name (see `is_internal_name`).
pub fn is_internal_font_name(name: &str) -> (r: bool)
    ensures
        r == is_internal_name(name@),
{
    let n = name.as_bytes().len();
    if n < 4 {
        return true;
    }
    let cs = chars_of(name);
    let mut i: usize = 0;
    while i < cs.len()
        invariant
            i <= cs.len(),
            cs@ == name@,
            n == encode_utf8(name@).len(),
            n >= 4,
            forall|k: int| 0 <= k < i ==> is_ascii_upper(#[trigger] cs@[k]) || is_ascii_digit(cs@[k]),
        decreases cs.len() - i,
    {
        let c = cs[i];
        if !(('A' <= c && c <= 'Z') || ('0' <= c && c <= '9')) {
            assert(!(is_ascii_upper(name@[i as int]) || is_ascii_digit(name@[i as int])));
            assert(!is_internal_name(name@));
            return false;
        }
        i = i + 1;
    }
    n <= 6
}

/// Number of alphabetic characters in `s`.
pub open spec fn alphabetic_count(s: Seq<char>) -> nat
    decreases s.len(),
{
    if s.len() == 0 {
        0
    } else {
        alphabetic_count(s.drop_last()) + if is_alphabetic(s.last()) {
            1nat
        } else {
            0nat
        }
    }
}

/// Text that is not body prose: code or math fonts, or a short run (at most
/// 4 bytes) without a letter; blank text is not counted as such.
pub open spec fn non_body_text(text: Seq<char>, font_name: Seq<char>) -> bool {
    let t = trim(text);
    let lf = lowercase(font_name);
    t.len() > 0 && (contains(lf, "mono"@) || contains(lf, "code"@) || contains(lf, "math"@) || (
    alphabetic_count(t) == 0 && encode_utf8(t).len() <= 4))
}

/// Whether a span's text is code, math or a short symbol run (see `non_body_text`).
pub fn is_non_body_text(text: &str, font_name: &str) -> (r: bool)
    ensures
        r == non_body_text(text@, font_name@),
{
    let tc = chars_of(text);
    let t = trim_exec(&tc);
    if t.len() == 0 {
        return false;
    }
    let fc = chars_of(font_name);
    let lf = lowercase_exec(&fc);
    if contains_exec(&lf, &chars_of("mono")) || contains_exec(&lf, &chars_of("code")) {
        return true;
    }
    if contains_exec(&lf, &chars_of("math")) {
        return true;
    }
    let mut alpha: usize = 0;
    let mut i: usize = 0;
    while i < t.len()
        invariant
            i <= t.len(),
            alpha == alphabetic_count(t@.subrange(0, i as int)),
            alpha <= i,
        decreases t.len() - i,
    {
        assert(t@.subrange(0, i + 1).drop_last() =~= t@.subrange(0, i as int));
        if char_is_alphabetic(t[i]) {
            alpha = alpha + 1;
        }
        i = i + 1;
    }
    assert(t@.subrange(0, t.len() as int) =~= t@);
    let ts = string_of(&t);
    alpha == 0 && ts.as_str().as_bytes().len() <= 4
}

/// What the weight and family checks read of one text span. The
/// coordinates themselves stay with the caller; the span carries the box's
/// bit patterns for evidence and the two geometric facts the checks use.
#[derive(Debug)]
pub struct SpanFacts {
    pub page_number: usize,
    pub text: String,
    pub font_name: String,
    pub is_bold: bool,
    pub is_italic: bool,
    /// Bits of the span's `(top, bottom, x0, x1)` box.
    pub bbox: (u32, u32, u32, u32),
    /// The span lies in the body zone: top at least 36pt from the page top
    /// and bottom above the last 53pt of the page.
    pub in_body: bool,
    /// Chart text: set in under 10pt and overlapping an image or a drawn path.
    pub chart_text: bool,
}

/// Evidence pointing at a span.
pub open spec fn span_note(s: SpanFacts, excerpt: Seq<char>) -> EvidenceView {
    EvidenceView { page: s.page_number, bbox: Some(s.bbox), excerpt: Some(excerpt) }
}

fn span_evidence(s: &SpanFacts, excerpt: Vec<char>) -> (e: EvidenceItem)
    ensures
        e@ == span_note(*s, excerpt@),
{
    EvidenceItem { page: s.page_number, bbox: Some(s.bbox), excerpt: Some(string_of(&excerpt)) }
}

/// Pass when there are no notes, otherwise fail with the count and the notes.
pub open spec fn span_verdict(notes: Seq<EvidenceView>, pass_detail: Seq<char>, fail_tail: Seq<char>) -> CheckResultView {
    if notes.len() == 0 {
        outcome(Status::Pass, seq![], pass_detail)
    } else {
        outcome(Status::Fail, notes, decimal(notes.len()) + fail_tail)
    }
}

fn span_verdict_exec(notes: Vec<EvidenceItem>, pass_detail: &str, fail_tail: &str) -> (r: CheckResult)
    ensures
        r@ == span_verdict(notes@.map_values(|e: EvidenceItem| e@), pass_detail@, fail_tail@),
{
    if notes.len() == 0 {
        assert(notes@.map_values(|e: EvidenceItem| e@) =~= seq![]);
        make_result(Status::Pass, notes, chars_of(pass_detail))
    } else {
        let mut d = decimal_exec(notes.len());
        append_chars(&mut d, &chars_of(fail_tail));
        make_result(Status::Fail, notes, d)
    }
}

/// The weight a span is set in.
pub open spec fn weight_label(bold: bool, italic: bool) -> Seq<char> {
    if bold && italic {
        "bold-italic"@
    } else if bold {
        "bold"@
    } else if italic {
        "italic"@
    } else {
        "normal"@
    }
}

/// The font-weight notes over the spans: each selected, non-blank body span
/// whose weight differs from the expected one (or, inverted, equals it).
pub open spec fn weight_notes(spans: Seq<SpanFacts>, expected: Seq<char>, filter: Option<usize>, invert: bool) -> Seq<
    EvidenceView,
>
    decreases spans.len(),
{
    if spans.len() == 0 {
        seq![]
    } else {
        let r = weight_notes(spans.drop_last(), expected, filter, invert);
        let s = spans.last();
        let d = weight_label(s.is_bold, s.is_italic);
        if page_selected(s.page_number, filter) && trim(s.text@).len() > 0 && s.in_body && (if invert {
            d == expected
        } else {
            d != expected
        }) {
            r.push(
                span_note(
                    s,
                    s.text@ + " ("@ + d + (if invert {
                        ", should not be "@
                    } else {
                        ", expected "@
                    }) + expected + ")"@,
                ),
            )
        } else {
            r
        }
    }
}

/// Checks that body text is set in the expected weight.
pub struct FontWeightChecker;

impl FontWeightChecker {
    pub fn category(&self) -> (r: &'static str)
        ensures
            r@ == "typography"@,
    {
        "typography"
    }

    pub fn name(&self) -> (r: &'static str)
        ensures
            r@ == "font_weight"@,
    {
        "font_weight"
    }

    /// Fails on every selected body span set in another weight than
    /// `expected` (with `invert`, in that weight).
    pub fn check(&self, spans: &[SpanFacts], expected: &str, page_filter: Option<usize>, invert: bool) -> (r:
        CheckResult)
        ensures
            r@ == span_verdict(
                weight_notes(spans@, expected@, page_filter, invert),
                "All text conforms to font weight requirements"@,
                " span(s) violate font weight requirements"@,
            ),
    {
        let ec = chars_of(expected);
        let mut notes: Vec<EvidenceItem> = Vec::new();
        let mut i: usize = 0;
        assert(notes@.map_values(|e: EvidenceItem| e@) =~= weight_notes(
            spans@.subrange(0, 0),
            expected@,
            page_filter,
            invert,
        ));
        while i < spans.len()
            invariant
                i <= spans.len(),
                ec@ == expected@,
                notes@.map_values(|e: EvidenceItem| e@) == weight_notes(
                    spans@.subrange(0, i as int),
                    expected@,
                    page_filter,
                    invert,
                ),
            decreases spans.len() - i,
        {
            assert(spans@.subrange(0, i + 1).drop_last() =~= spans@.subrange(0, i as int));
            let s = &spans[i];
            let selected = match page_filter {
                Some(t) => s.page_number == t,
                None => true,
            };
            let tc = chars_of(s.text.as_str());
            let t = trim_exec(&tc);
            let label = if s.is_bold && s.is_italic {
                "bold-italic"
            } else if s.is_bold {
                "bold"
            } else if s.is_italic {
                "italic"
            } else {
                "normal"
            };
            let lc = chars_of(label);
            let same = crate::text::chars_eq(&lc, &ec);
            let hit = if invert {
                same
            } else {
                !same
            };
            if selected && t.len() > 0 && s.in_body && hit {
                let mut ex = tc;
                append_chars(&mut ex, &chars_of(" ("));
                append_chars(&mut ex, &lc);
                if invert {
                    append_chars(&mut ex, &chars_of(", should not be "));
                } else {
                    append_chars(&mut ex, &chars_of(", expected "));
                }
                append_chars(&mut ex, &ec);
                append_chars(&mut ex, &chars_of(")"));
                let ghost before = notes@.map_values(|e: EvidenceItem| e@);
                let e = span_evidence(s, ex);
                notes.push(e);
                assert(notes@.map_values(|e: EvidenceItem| e@) =~= before.push(e@));
            }
            i = i + 1;
        }
        assert(spans@.subrange(0, spans.len() as int) =~= spans@);
        span_verdict_exec(
            notes,
            "All text conforms to font weight requirements",
            " span(s) violate font weight requirements",
        )
    }
}

/// Symbol and decorative families that the family check ignores.
pub open spec fn special_font(f: Seq<char>) -> bool {
    f == "Symbol"@ || f == "Wingdings"@ || f == "CambriaMath"@ || f == "ZapfDingbats"@ || f
        == "Aptos"@
}

/// A span the family check looks at: non-blank body text in a real family.
pub open spec fn family_eligible(s: SpanFacts) -> bool {
    &&& trim(s.text@).len() > 0
    &&& s.in_body
    &&& !is_internal_name(family_of(s.font_name@))
    &&& !special_font(family_of(s.font_name@))
}

/// A span that counts toward the family tally: eligible and not chart text.
pub open spec fn family_counted(s: SpanFacts) -> bool {
    family_eligible(s) && !s.chart_text
}

/// How many counted spans are set in family `f`.
pub open spec fn family_count(spans: Seq<SpanFacts>, f: Seq<char>) -> nat
    decreases spans.len(),
{
    if spans.len() == 0 {
        0
    } else {
        family_count(spans.drop_last(), f) + if family_counted(spans.last()) && family_of(
            spans.last().font_name@,
        ) == f {
            1nat
        } else {
            0nat
        }
    }
}

/// The families of the counted spans, each once, in order of first appearance.
pub open spec fn families_seen(spans: Seq<SpanFacts>) -> Seq<Seq<char>>
    decreases spans.len(),
{
    if spans.len() == 0 {
        seq![]
    } else {
        let r = families_seen(spans.drop_last());
        let f = family_of(spans.last().font_name@);
        if family_counted(spans.last()) && !r.contains(f) {
            r.push(f)
        } else {
            r
        }
    }
}

/// Number of counted spans.
pub open spec fn counted_total(spans: Seq<SpanFacts>) -> nat
    decreases spans.len(),
{
    if spans.len() == 0 {
        0
    } else {
        counted_total(spans.drop_last()) + if family_counted(spans.last()) {
            1nat
        } else {
            0nat
        }
    }
}

/// The first family of `fams[k..]` with a count above `best`'s, else `best`,
/// carried along the scan.
pub open spec fn modal_from(spans: Seq<SpanFacts>, fams: Seq<Seq<char>>, k: int, best: Seq<char>) -> Seq<char>
    decreases fams.len() - k,
{
    if k < 0 || k >= fams.len() {
        best
    } else {
        modal_from(
            spans,
            fams,
            k + 1,
            if family_count(spans, fams[k]) > family_count(spans, best) {
                fams[k]
            } else {
                best
            },
        )
    }
}

/// The modal family: of those with the highest count, the first to appear.
pub open spec fn modal_family(spans: Seq<SpanFacts>) -> Seq<char> {
    let fams = families_seen(spans);
    if fams.len() == 0 {
        seq![]
    } else {
        modal_from(spans, fams, 1, fams[0])
    }
}

/// Notes of the allowed-list pass: eligible prose spans, not chart text, in a
/// family outside a non-empty allowed list.
pub open spec fn allowed_notes(spans: Seq<SpanFacts>, allowed: Seq<Seq<char>>) -> Seq<EvidenceView>
    decreases spans.len(),
{
    if spans.len() == 0 {
        seq![]
    } else {
        let r = allowed_notes(spans.drop_last(), allowed);
        let s = spans.last();
        let f = family_of(s.font_name@);
        if family_eligible(s) && allowed.len() > 0 && !s.chart_text && !non_body_text(
            s.text@,
            s.font_name@,
        ) && !allowed.contains(f) {
            r.push(span_note(s, s.text@ + " ("@ + f + ")"@))
        } else {
            r
        }
    }
}

/// Notes of the consistency pass: eligible prose spans, not chart text, in a
/// family counted more than `threshold` times that is neither the modal
/// family nor allowed.
pub open spec fn consistency_notes(
    spans: Seq<SpanFacts>,
    all: Seq<SpanFacts>,
    allowed: Seq<Seq<char>>,
    modal: Seq<char>,
    threshold: nat,
) -> Seq<EvidenceView>
    decreases spans.len(),
{
    if spans.len() == 0 {
        seq![]
    } else {
        let r = consistency_notes(spans.drop_last(), all, allowed, modal, threshold);
        let s = spans.last();
        let f = family_of(s.font_name@);
        if family_eligible(s) && family_count(all, f) > threshold && f != modal && (allowed.len()
            == 0 || !allowed.contains(f)) && !s.chart_text && !non_body_text(s.text@, s.font_name@) {
            r.push(span_note(s, s.text@ + " ("@ + f + ", expected "@ + modal + ")"@))
        } else {
            r
        }
    }
}

/// All font-family notes: the allowed-list pass, then, when consistency is
/// asked and more than one family is counted, the consistency pass against
/// the modal family with a threshold of 1% of the counted spans.
pub open spec fn family_notes(spans: Seq<SpanFacts>, allowed: Seq<Seq<char>>, consistent: bool) -> Seq<
    EvidenceView,
> {
    let first = allowed_notes(spans, allowed);
    if consistent && families_seen(spans).len() > 1 {
        first + consistency_notes(
            spans,
            spans,
            allowed,
            modal_family(spans),
            counted_total(spans) / 100,
        )
    } else {
        first
    }
}

proof fn lemma_unseen_count_zero(spans: Seq<SpanFacts>, f: Seq<char>)
    requires
        !families_seen(spans).contains(f),
    ensures
        family_count(spans, f) == 0,
    decreases spans.len(),
{
    if spans.len() > 0 {
        let r = families_seen(spans.drop_last());
        let ff = family_of(spans.last().font_name@);
        let all = families_seen(spans);
        assert(all.len() >= r.len());
        assert(forall|k: int| 0 <= k < r.len() ==> all[k] == r[k]);
        if r.contains(f) {
            let k = choose|k: int| 0 <= k < r.len() && r[k] == f;
            assert(all[k] == f);
            assert(false);
        }
        if family_counted(spans.last()) && ff == f {
            assert(all == r.push(f));
            assert(all[r.len() as int] == f);
            assert(false);
        }
        lemma_unseen_count_zero(spans.drop_last(), f);
    }
}

fn is_special_exec(f: &Vec<char>) -> (r: bool)
    ensures
        r == special_font(f@),
{
    crate::text::chars_eq(f, &chars_of("Symbol")) || crate::text::chars_eq(f, &chars_of("Wingdings"))
        || crate::text::chars_eq(f, &chars_of("CambriaMath")) || crate::text::chars_eq(
        f,
        &chars_of("ZapfDingbats"),
    ) || crate::text::chars_eq(f, &chars_of("Aptos"))
}

fn eligible_family(s: &SpanFacts) -> (r: Option<Vec<char>>)
    ensures
        match r {
            Some(f) => family_eligible(*s) && f@ == family_of(s.font_name@),
            None => !family_eligible(*s),
        },
{
    let tc = chars_of(s.text.as_str());
    let t = trim_exec(&tc);
    if t.len() == 0 || !s.in_body {
        return None;
    }
    let fam = normalize_family(s.font_name.as_str());
    if is_internal_font_name(fam.as_str()) {
        return None;
    }
    let fc = chars_of(fam.as_str());
    if is_special_exec(&fc) {
        return None;
    }
    Some(fc)
}

fn list_contains(list: &[String], f: &Vec<char>) -> (r: bool)
    ensures
        r == list@.map_values(|x: String| x@).contains(f@),
{
    let ghost lv = list@.map_values(|x: String| x@);
    let mut i: usize = 0;
    while i < list.len()
        invariant
            i <= list.len(),
            lv == list@.map_values(|x: String| x@),
            forall|k: int| 0 <= k < i ==> lv[k] != f@,
        decreases list.len() - i,
    {
        let c = chars_of(list[i].as_str());
        if crate::text::chars_eq(&c, f) {
            assert(lv[i as int] == f@);
            return true;
        }
        i = i + 1;
    }
    false
}

/// Index of `f` among the tallied families, if there.
fn tally_index(tally: &Vec<(Vec<char>, usize)>, f: &Vec<char>) -> (r: Option<usize>)
    ensures
        match r {
            Some(k) => k < tally@.len() && tally@[k as int].0@ == f@,
            None => forall|k: int| 0 <= k < tally@.len() ==> tally@[k].0@ != f@,
        },
{
    let mut i: usize = 0;
    while i < tally.len()
        invariant
            i <= tally.len(),
            forall|k: int| 0 <= k < i ==> tally@[k].0@ != f@,
        decreases tally.len() - i,
    {
        if crate::text::chars_eq(&tally[i].0, f) {
            return Some(i);
        }
        i = i + 1;
    }
    None
}

/// The tally matches the spec over `spans`: the families seen, in order, each
/// with its count.
pub open spec fn tally_matches(tally: Seq<(Vec<char>, usize)>, spans: Seq<SpanFacts>) -> bool {
    &&& tally.len() == families_seen(spans).len()
    &&& forall|k: int|
        0 <= k < tally.len() ==> (#[trigger] tally[k]).0@ == families_seen(spans)[k] && tally[k].1
            == family_count(spans, families_seen(spans)[k])
}

proof fn lemma_seen_distinct(spans: Seq<SpanFacts>)
    ensures
        forall|a: int, b: int|
            0 <= a < b < families_seen(spans).len() ==> families_seen(spans)[a] != families_seen(
                spans,
            )[b],
    decreases spans.len(),
{
    if spans.len() > 0 {
        lemma_seen_distinct(spans.drop_last());
        let r = families_seen(spans.drop_last());
        let all = families_seen(spans);
        assert forall|a: int, b: int| 0 <= a < b < all.len() implies all[a] != all[b] by {
            if b >= r.len() {
                assert(all[a] == r[a]);
                assert(!r.contains(all[b]));
            } else {
                assert(all[a] == r[a] && all[b] == r[b]);
            }
        }
    }
}

proof fn lemma_count_bounded(spans: Seq<SpanFacts>, f: Seq<char>)
    ensures
        family_count(spans, f) <= spans.len(),
        counted_total(spans) <= spans.len(),
    decreases spans.len(),
{
    if spans.len() > 0 {
        lemma_count_bounded(spans.drop_last(), f);
    }
}

fn tally_families(spans: &[SpanFacts]) -> (r: (Vec<(Vec<char>, usize)>, usize))
    ensures
        tally_matches(r.0@, spans@),
        r.1 == counted_total(spans@),
{
    let mut tally: Vec<(Vec<char>, usize)> = Vec::new();
    let mut total: usize = 0;
    let mut i: usize = 0;
    while i < spans.len()
        invariant
            i <= spans.len(),
            tally_matches(tally@, spans@.subrange(0, i as int)),
            total == counted_total(spans@.subrange(0, i as int)),
        decreases spans.len() - i,
    {
        let ghost pre = spans@.subrange(0, i as int);
        let ghost post = spans@.subrange(0, i + 1);
        assert(post.drop_last() =~= pre);
        assert(post.last() == spans@[i as int]);
        proof {
            lemma_seen_distinct(pre);
            lemma_count_bounded(pre, seq![]);
        }
        let s = &spans[i];
        match eligible_family(s) {
            Some(f) => {
                if !s.chart_text {
                    total = total + 1;
                    match tally_index(&tally, &f) {
                        Some(k) => {
                            let old_count = tally[k].1;
                            proof {
                                lemma_count_bounded(pre, f@);
                                assert(families_seen(pre).contains(f@));
                                assert(families_seen(post) == families_seen(pre));
                            }
                            let entry = (tally[k].0.clone(), old_count + 1);
                            tally.set(k, entry);
                            assert forall|m: int| 0 <= m < tally@.len() implies (#[trigger] tally@[m]).0@
                                == families_seen(post)[m] && tally@[m].1 == family_count(
                                post,
                                families_seen(post)[m],
                            ) by {
                                if m != k {
                                    assert(families_seen(pre)[m] != families_seen(pre)[k as int]);
                                }
                            }
                        },
                        None => {
                            proof {
                                if families_seen(pre).contains(f@) {
                                    let k = choose|k: int|
                                        0 <= k < families_seen(pre).len() && families_seen(pre)[k]
                                            == f@;
                                    assert(tally@[k].0@ == f@);
                                }
                                lemma_unseen_count_zero(pre, f@);
                            }
                            tally.push((f, 1));
                            assert(families_seen(post) == families_seen(pre).push(f@));
                            assert forall|m: int| 0 <= m < tally@.len() implies (#[trigger] tally@[m]).0@
                                == families_seen(post)[m] && tally@[m].1 == family_count(
                                post,
                                families_seen(post)[m],
                            ) by {
                                if m < tally@.len() - 1 {
                                    assert(families_seen(pre)[m] != f@);
                                }
                            }
                        },
                    }
                }
            },
            None => {},
        }
        i = i + 1;
    }
    assert(spans@.subrange(0, spans.len() as int) =~= spans@);
    (tally, total)
}

/// Checks that body text uses allowed families and, when asked, one family.
pub struct FontFamilyChecker;

impl FontFamilyChecker {
    pub fn category(&self) -> (r: &'static str)
        ensures
            r@ == "typography"@,
    {
        "typography"
    }

    pub fn name(&self) -> (r: &'static str)
        ensures
            r@ == "font_family"@,
    {
        "font_family"
    }

    /// Notes prose set outside the allowed families and, with `consistent`,
    /// prose set in a family other than the modal one.
    pub fn check(&self, spans: &[SpanFacts], allowed: &[String], consistent: bool) -> (r: CheckResult)
        ensures
            r@ == span_verdict(
                family_notes(spans@, allowed@.map_values(|x: String| x@), consistent),
                "All text conforms to font family requirements"@,
                " span(s) violate font family requirements"@,
            ),
    {
        let ghost av = allowed@.map_values(|x: String| x@);
        let mut notes: Vec<EvidenceItem> = Vec::new();
        let mut i: usize = 0;
        assert(notes@.map_values(|e: EvidenceItem| e@) =~= allowed_notes(spans@.subrange(0, 0), av));
        while i < spans.len()
            invariant
                i <= spans.len(),
                av == allowed@.map_values(|x: String| x@),
                notes@.map_values(|e: EvidenceItem| e@) == allowed_notes(spans@.subrange(0, i as int), av),
            decreases spans.len() - i,
        {
            assert(spans@.subrange(0, i + 1).drop_last() =~= spans@.subrange(0, i as int));
            let s = &spans[i];
            match eligible_family(s) {
                Some(f) => {
                    if allowed.len() > 0 && !s.chart_text && !is_non_body_text(
                        s.text.as_str(),
                        s.font_name.as_str(),
                    ) && !list_contains(allowed, &f) {
                        let mut ex = chars_of(s.text.as_str());
                        append_chars(&mut ex, &chars_of(" ("));
                        append_chars(&mut ex, &f);
                        append_chars(&mut ex, &chars_of(")"));
                        let ghost before = notes@.map_values(|e: EvidenceItem| e@);
                        let e = span_evidence(s, ex);
                        notes.push(e);
                        assert(notes@.map_values(|e: EvidenceItem| e@) =~= before.push(e@));
                    }
                },
                None => {},
            }
            i = i + 1;
        }
        assert(spans@.subrange(0, spans.len() as int) =~= spans@);
        let ghost first = notes@.map_values(|e: EvidenceItem| e@);
        if !consistent {
            return span_verdict_exec(
                notes,
                "All text conforms to font family requirements",
                " span(s) violate font family requirements",
            );
        }
        let (tally, total) = tally_families(spans);
        if tally.len() <= 1 {
            return span_verdict_exec(
                notes,
                "All text conforms to font family requirements",
                " span(s) violate font family requirements",
            );
        }
        let ghost fams = families_seen(spans@);
        let mut best: usize = 0;
        let mut k: usize = 1;
        while k < tally.len()
            invariant
                1 <= k <= tally.len(),
                best < tally.len(),
                fams == families_seen(spans@),
                tally_matches(tally@, spans@),
                modal_family(spans@) == modal_from(spans@, fams, k as int, fams[best as int]),
            decreases tally.len() - k,
        {
            if tally[k].1 > tally[best].1 {
                best = k;
            }
            k = k + 1;
        }
        let modal = &tally[best].0;
        let threshold = total / 100;
        let ghost second_all = consistency_notes(spans@, spans@, av, modal@, threshold as nat);
        let mut j: usize = 0;
        assert(notes@.map_values(|e: EvidenceItem| e@) =~= first + consistency_notes(
            spans@.subrange(0, 0),
            spans@,
            av,
            modal@,
            threshold as nat,
        ));
        while j < spans.len()
            invariant
                j <= spans.len(),
                av == allowed@.map_values(|x: String| x@),
                tally_matches(tally@, spans@),
                modal@ == modal_family(spans@),
                threshold == counted_total(spans@) / 100,
                notes@.map_values(|e: EvidenceItem| e@) == first + consistency_notes(
                    spans@.subrange(0, j as int),
                    spans@,
                    av,
                    modal@,
                    threshold as nat,
                ),
            decreases spans.len() - j,
        {
            assert(spans@.subrange(0, j + 1).drop_last() =~= spans@.subrange(0, j as int));
            let s = &spans[j];
            match eligible_family(s) {
                Some(f) => {
                    let count = match tally_index(&tally, &f) {
                        Some(x) => tally[x].1,
                        None => {
                            proof {
                                if families_seen(spans@).contains(f@) {
                                    let m = choose|m: int|
                                        0 <= m < families_seen(spans@).len() && families_seen(
                                            spans@,
                                        )[m] == f@;
                                    assert(tally@[m].0@ == f@);
                                }
                                lemma_unseen_count_zero(spans@, f@);
                            }
                            0
                        },
                    };
                    if count > threshold && !crate::text::chars_eq(&f, modal) && (allowed.len() == 0
                        || !list_contains(allowed, &f)) && !s.chart_text && !is_non_body_text(
                        s.text.as_str(),
                        s.font_name.as_str(),
                    ) {
                        let mut ex = chars_of(s.text.as_str());
                        append_chars(&mut ex, &chars_of(" ("));
                        append_chars(&mut ex, &f);
                        append_chars(&mut ex, &chars_of(", expected "));
                        append_chars(&mut ex, modal);
                        append_chars(&mut ex, &chars_of(")"));
                        let ghost before = notes@.map_values(|e: EvidenceItem| e@);
                        let e = span_evidence(s, ex);
                        notes.push(e);
                        assert(notes@.map_values(|e: EvidenceItem| e@) =~= before.push(e@));
                    }
                },
                None => {},
            }
            j = j + 1;
        }
        assert(spans@.subrange(0, spans.len() as int) =~= spans@);
        span_verdict_exec(
            notes,
            "All text conforms to font family requirements",
            " span(s) violate font family requirements",
        )
    }
}

/// Checks body font sizes against the allowed sizes and the modal size; its measurements are made by the caller.
pub struct FontSizeChecker;

impl FontSizeChecker {
    pub fn category(&self) -> (r: &'static str)
        ensures
            r@ == "typography"@,
    {
        "typography"
    }

    pub fn name(&self) -> (r: &'static str)
        ensures
            r@ == "font_size"@,
    {
        "font_size"
    }
}

/// How the lines of a page are aligned.
#[derive(Debug, Clone, Copy, PartialEq, Eq, Structural)]
pub enum Alignment {
    Justified,
    Left,
}

/// The word for an alignment.
pub open spec fn alignment_word(a: Alignment) -> Seq<char> {
    match a {
        Alignment::Justified => "justified"@,
        Alignment::Left => "left"@,
    }
}

/// What the justification check reads of a page: its number, the texts of
/// the spans in its bottom 53pt, and the alignment its line ends show (`None`
/// when the page has too little body text to tell).
#[derive(Debug, Clone)]
pub struct PageAlignment {
    pub page_number: usize,
    pub footer_texts: Vec<String>,
    pub alignment: Option<Alignment>,
}

/// A roman numeral letter.
pub open spec fn is_roman_letter(c: char) -> bool {
    c == 'i' || c == 'v' || c == 'x' || c == 'l' || c == 'c' || c == 'd' || c == 'm' || c == 'I'
        || c == 'V' || c == 'X' || c == 'L' || c == 'C' || c == 'D' || c == 'M'
}

/// A footer text that is a roman page number.
pub open spec fn is_roman_number(t: Seq<char>) -> bool {
    trim(t).len() > 0 && forall|i: int| 0 <= i < trim(t).len() ==> is_roman_letter(#[trigger] trim(t)[i])
}

/// The page is numbered in roman numerals (front matter).
pub open spec fn has_roman_page_number(footers: Seq<Seq<char>>) -> bool {
    exists|i: int| 0 <= i < footers.len() && is_roman_number(#[trigger] footers[i])
}

/// The body pages that show an alignment: past page 5, not numbered in roman
/// numerals, with enough text; each with its number and alignment.
pub open spec fn page_alignments(pages: Seq<PageAlignment>) -> Seq<(usize, Alignment)>
    decreases pages.len(),
{
    if pages.len() == 0 {
        seq![]
    } else {
        let r = page_alignments(pages.drop_last());
        let p = pages.last();
        if p.page_number > 5 && !has_roman_page_number(texts_of(p.footer_texts@)) && p.alignment is Some {
            r.push((p.page_number, p.alignment->0))
        } else {
            r
        }
    }
}

/// The views of a list of strings.
pub open spec fn texts_of(v: Seq<String>) -> Seq<Seq<char>> {
    v.map_values(|s: String| s@)
}

/// Number of pages with alignment `a`.
pub open spec fn alignment_count(ps: Seq<(usize, Alignment)>, a: Alignment) -> nat
    decreases ps.len(),
{
    if ps.len() == 0 {
        0
    } else {
        alignment_count(ps.drop_last(), a) + if ps.last().1 == a {
            1nat
        } else {
            0nat
        }
    }
}

/// The alignment most pages show; justified when as many pages are left-aligned.
pub open spec fn dominant_alignment(ps: Seq<(usize, Alignment)>) -> Alignment {
    if alignment_count(ps, Alignment::Left) > alignment_count(ps, Alignment::Justified) {
        Alignment::Left
    } else {
        Alignment::Justified
    }
}

/// The notes on the pages whose alignment is not `dominant`.
pub open spec fn alignment_notes(ps: Seq<(usize, Alignment)>, dominant: Alignment) -> Seq<EvidenceView>
    decreases ps.len(),
{
    if ps.len() == 0 {
        seq![]
    } else {
        let r = alignment_notes(ps.drop_last(), dominant);
        let (pn, a) = ps.last();
        if a != dominant {
            r.push(
                page_note(
                    pn,
                    "Page "@ + decimal(pn as nat) + ": "@ + alignment_word(a) + " (expected "@
                        + alignment_word(dominant) + ")"@,
                ),
            )
        } else {
            r
        }
    }
}

/// What the alignment check returns for the pages' alignments: a pass when
/// no page has one; when consistency is required, a failure on the pages
/// that differ from the dominant alignment; else a pass naming the first page's.
pub open spec fn justification_verdict(pages: Seq<PageAlignment>, consistent: bool) -> CheckResultView {
    let ps = page_alignments(pages);
    if ps.len() == 0 {
        outcome(Status::Pass, seq![], "No body pages to analyze"@)
    } else if consistent && alignment_count(ps, Alignment::Left) > 0 && alignment_count(
        ps,
        Alignment::Justified,
    ) > 0 {
        let notes = alignment_notes(ps, dominant_alignment(ps));
        outcome(Status::Fail, notes, decimal(notes.len()) + " page(s) have inconsistent justification"@)
    } else {
        outcome(
            Status::Pass,
            seq![],
            "All "@ + decimal(ps.len()) + " body pages consistently "@ + alignment_word(ps[0].1)
                + "-aligned"@,
        )
    }
}

fn is_roman_exec(t: &str) -> (r: bool)
    ensures
        r == is_roman_number(t@),
{
    let c = chars_of(t);
    let tc = trim_exec(&c);
    if tc.len() == 0 {
        return false;
    }
    let mut i: usize = 0;
    while i < tc.len()
        invariant
            i <= tc.len(),
            tc@ == trim(t@),
            forall|k: int| 0 <= k < i ==> is_roman_letter(#[trigger] tc@[k]),
        decreases tc.len() - i,
    {
        let ch = tc[i];
        if !(ch == 'i' || ch == 'v' || ch == 'x' || ch == 'l' || ch == 'c' || ch == 'd' || ch == 'm'
            || ch == 'I' || ch == 'V' || ch == 'X' || ch == 'L' || ch == 'C' || ch == 'D' || ch
            == 'M') {
            assert(!is_roman_letter(tc@[i as int]));
            return false;
        }
        i = i + 1;
    }
    true
}

fn has_roman_exec(footers: &Vec<String>) -> (r: bool)
    ensures
        r == has_roman_page_number(texts_of(footers@)),
{
    let ghost fv = texts_of(footers@);
    let mut i: usize = 0;
    while i < footers.len()
        invariant
            i <= footers.len(),
            fv == texts_of(footers@),
            forall|k: int| 0 <= k < i ==> !is_roman_number(#[trigger] fv[k]),
        decreases footers.len() - i,
    {
        if is_roman_exec(footers[i].as_str()) {
            assert(is_roman_number(fv[i as int]));
            return true;
        }
        i = i + 1;
    }
    false
}

fn alignment_word_exec(a: Alignment) -> (r: &'static str)
    ensures
        r@ == alignment_word(a),
{
    match a {
        Alignment::Justified => "justified",
        Alignment::Left => "left",
    }
}

/// Checks that body pages are aligned one way.
pub struct JustificationChecker;

impl JustificationChecker {
    pub fn category(&self) -> (r: &'static str)
        ensures
            r@ == "typography"@,
    {
        "typography"
    }

    pub fn name(&self) -> (r: &'static str)
        ensures
            r@ == "justification"@,
    {
        "justification"
    }

    /// Judges the alignments of the body pages (see `justification_verdict`).
    pub fn check(&self, pages: &[PageAlignment], consistent: bool) -> (r: CheckResult)
        ensures
            r@ == justification_verdict(pages@, consistent),
    {
        let mut ps: Vec<(usize, Alignment)> = Vec::new();
        let mut left: usize = 0;
        let mut justified: usize = 0;
        let mut i: usize = 0;
        while i < pages.len()
            invariant
                i <= pages.len(),
                ps@ == page_alignments(pages@.subrange(0, i as int)),
                left == alignment_count(ps@, Alignment::Left),
                justified == alignment_count(ps@, Alignment::Justified),
                left + justified == ps@.len(),
                ps@.len() <= i,
            decreases pages.len() - i,
        {
            assert(pages@.subrange(0, i + 1).drop_last() =~= pages@.subrange(0, i as int));
            let p = &pages[i];
            if p.page_number > 5 && !has_roman_exec(&p.footer_texts) {
                match p.alignment {
                    Some(a) => {
                        let ghost before = ps@;
                        ps.push((p.page_number, a));
                        assert(ps@.drop_last() =~= before);
                        match a {
                            Alignment::Left => left = left + 1,
                            Alignment::Justified => justified = justified + 1,
                        }
                    },
                    None => {},
                }
            }
            i = i + 1;
        }
        assert(pages@.subrange(0, pages.len() as int) =~= pages@);
        let empty: Vec<EvidenceItem> = Vec::new();
        assert(empty@.map_values(|e: EvidenceItem| e@) =~= seq![]);
        if ps.len() == 0 {
            return make_result(Status::Pass, empty, chars_of("No body pages to analyze"));
        }
        if consistent && left > 0 && justified > 0 {
            let dominant = if left > justified {
                Alignment::Left
            } else {
                Alignment::Justified
            };
            let mut notes: Vec<EvidenceItem> = Vec::new();
            let mut k: usize = 0;
            assert(notes@.map_values(|e: EvidenceItem| e@) =~= alignment_notes(ps@.subrange(0, 0), dominant));
            while k < ps.len()
                invariant
                    k <= ps.len(),
                    notes@.map_values(|e: EvidenceItem| e@) == alignment_notes(ps@.subrange(0, k as int), dominant),
                decreases ps.len() - k,
            {
                assert(ps@.subrange(0, k + 1).drop_last() =~= ps@.subrange(0, k as int));
                let (pn, a) = ps[k];
                if a != dominant {
                    let mut ex = chars_of("Page ");
                    append_chars(&mut ex, &decimal_exec(pn));
                    append_chars(&mut ex, &chars_of(": "));
                    append_chars(&mut ex, &chars_of(alignment_word_exec(a)));
                    append_chars(&mut ex, &chars_of(" (expected "));
                    append_chars(&mut ex, &chars_of(alignment_word_exec(dominant)));
                    append_chars(&mut ex, &chars_of(")"));
                    let ghost before = notes@.map_values(|e: EvidenceItem| e@);
                    let e = make_note(pn, ex);
                    notes.push(e);
                    assert(notes@.map_values(|e: EvidenceItem| e@) =~= before.push(e@));
                }
                k = k + 1;
            }
            assert(ps@.subrange(0, ps.len() as int) =~= ps@);
            let mut d = decimal_exec(notes.len());
            append_chars(&mut d, &chars_of(" page(s) have inconsistent justification"));
            return make_result(Status::Fail, notes, d);
        }
        let mut d = chars_of("All ");
        append_chars(&mut d, &decimal_exec(ps.len()));
        append_chars(&mut d, &chars_of(" body pages consistently "));
        append_chars(&mut d, &chars_of(alignment_word_exec(ps[0].1)));
        append_chars(&mut d, &chars_of("-aligned"));
        make_result(Status::Pass, empty, d)
    }
}

proof fn lemma_modal_from_max(spans: Seq<SpanFacts>, fams: Seq<Seq<char>>, k: int, best: Seq<char>)
    requires
        0 <= k,
    ensures
        family_count(spans, best) <= family_count(spans, modal_from(spans, fams, k, best)),
        forall|j: int| k <= j < fams.len() ==> family_count(spans, #[trigger] fams[j]) <= family_count(
            spans,
            modal_from(spans, fams, k, best),
        ),
    decreases fams.len() - k,
{
    if k < fams.len() {
        let next = if family_count(spans, fams[k]) > family_count(spans, best) {
            fams[k]
        } else {
            best
        };
        lemma_modal_from_max(spans, fams, k + 1, next);
    }
}

/// The family the consistency pass expects is a most-used one: no family is
/// set in more counted spans than the modal family.
pub proof fn modal_family_is_most_used(spans: Seq<SpanFacts>, f: Seq<char>)
    ensures
        family_count(spans, f) <= family_count(spans, modal_family(spans)),
{
    let fams = families_seen(spans);
    if !fams.contains(f) {
        lemma_unseen_count_zero(spans, f);
    } else {
        let j = choose|j: int| 0 <= j < fams.len() && fams[j] == f;
        lemma_modal_from_max(spans, fams, 1, fams[0]);
    }
}

/// The alignment the justification check expects is shown by at least as
/// many pages as any alignment.
pub proof fn dominant_alignment_is_most_shown(ps: Seq<(usize, Alignment)>, a: Alignment)
    ensures
        alignment_count(ps, a) <= alignment_count(ps, dominant_alignment(ps)),
{
}

} // verus!
