//! Content checks: boilerplate text against a template, committee order on
//! the acceptance page, and chapter titles between the table of contents and
//! the body.

use vstd::prelude::*;
use vstd::string::StringSliceAdditionalSpecFns;
use vstd::utf8::{decode_utf8, encode_utf8, is_char_boundary};
use crate::checkers::{
    make_note, make_result, outcome, page_note, CheckResult, CheckResultView, EvidenceItem,
    EvidenceView, Status,
};
use crate::pattern::{
    compile_pattern, escape_pattern, pattern_accepts, pattern_is_match, pattern_replace_all,
    pattern_capture_pair, regex_accepts, regex_capture_pair, regex_compiles, regex_escaped,
    regex_matches, regex_replaced, Pattern,
};
use crate::text::{
    append_chars, chars_eq, chars_of, collapse_ws, collapse_ws_exec, contains, contains_exec,
    is_white_space, lowercase, lowercase_exec, string_of, trim, trim_exec, char_is_whitespace,
    decimal, decimal_exec, str_to_lowercase,
};

verus! {

/// `normalize`: white-space runs collapsed to one space, trimmed, lowercased.
pub open spec fn normalized(s: Seq<char>) -> Seq<char> {
    lowercase(trim(collapse_ws(s)))
}

pub fn normalize(s: &str) -> (r: String)
    ensures
        r@ == normalized(s@),
{
    let cs = chars_of(s);
    let c = collapse_ws_exec(&cs);
    let t = trim_exec(&c);
    let l = lowercase_exec(&t);
    string_of(&l)
}

/// The dash characters that title normalization unifies.
pub open spec fn is_dash(c: char) -> bool {
    c == '\u{2013}' || c == '\u{2014}' || c == '-'
}

/// Every maximal run of dashes replaced by one `-` (the `[–—-]+` -> `"-"` rewrite).
pub open spec fn collapse_dashes(s: Seq<char>) -> Seq<char>
    decreases s.len(),
{
    if s.len() == 0 {
        seq![]
    } else {
        let p = s.drop_last();
        if is_dash(s.last()) {
            if p.len() > 0 && is_dash(p.last()) {
                collapse_dashes(p)
            } else {
                collapse_dashes(p).push('-')
            }
        } else {
            collapse_dashes(p).push(s.last())
        }
    }
}

/// Characters kept by title normalization: `a-z`, `0-9`, white space, `-`, `:`.
pub open spec fn is_title_char(c: char) -> bool {
    ('a' <= c && c <= 'z') || ('0' <= c && c <= '9') || is_white_space(c) || c == '-' || c == ':'
}

/// Only the title characters of `s`, in order (the `[^a-z0-9\s\-:]` -> `""` rewrite).
pub open spec fn keep_title_chars(s: Seq<char>) -> Seq<char>
    decreases s.len(),
{
    if s.len() == 0 {
        seq![]
    } else if is_title_char(s.last()) {
        keep_title_chars(s.drop_last()).push(s.last())
    } else {
        keep_title_chars(s.drop_last())
    }
}

/// `normalize_title`: normalized, dashes unified, other punctuation dropped.
pub open spec fn normalized_title(s: Seq<char>) -> Seq<char> {
    keep_title_chars(collapse_dashes(normalized(s)))
}

fn collapse_dashes_exec(s: &[char]) -> (r: Vec<char>)
    ensures
        r@ == collapse_dashes(s@),
{
    let mut r: Vec<char> = Vec::new();
    let mut i: usize = 0;
    while i < s.len()
        invariant
            i <= s.len(),
            r@ == collapse_dashes(s@.subrange(0, i as int)),
        decreases s.len() - i,
    {
        let c = s[i];
        proof {
            assert(s@.subrange(0, i + 1).drop_last() =~= s@.subrange(0, i as int));
        }
        let d = c == '\u{2013}' || c == '\u{2014}' || c == '-';
        if d {
            let prev_dash = i > 0 && (s[i - 1] == '\u{2013}' || s[i - 1] == '\u{2014}' || s[i
                - 1] == '-');
            if !prev_dash {
                r.push('-');
            }
        } else {
            r.push(c);
        }
        i = i + 1;
    }
    assert(s@.subrange(0, s.len() as int) =~= s@);
    r
}

fn keep_title_chars_exec(s: &[char]) -> (r: Vec<char>)
    ensures
        r@ == keep_title_chars(s@),
{
    let mut r: Vec<char> = Vec::new();
    let mut i: usize = 0;
    while i < s.len()
        invariant
            i <= s.len(),
            r@ == keep_title_chars(s@.subrange(0, i as int)),
        decreases s.len() - i,
    {
        let c = s[i];
        proof {
            assert(s@.subrange(0, i + 1).drop_last() =~= s@.subrange(0, i as int));
        }
        if ('a' <= c && c <= 'z') || ('0' <= c && c <= '9') || char_is_whitespace(c) || c == '-'
            || c == ':' {
            r.push(c);
        }
        i = i + 1;
    }
    assert(s@.subrange(0, s.len() as int) =~= s@);
    r
}

/// Normalizes a chapter title for comparison between the table of contents
/// and the body.
pub fn normalize_title(title: &str) -> (r: String)
    ensures
        r@ == normalized_title(title@),
{
    let n = normalize(title);
    let cs = chars_of(n.as_str());
    let d = collapse_dashes_exec(&cs);
    let k = keep_title_chars_exec(&d);
    string_of(&k)
}

/// The words of `s` (`str::split_whitespace`): maximal runs of non-white-space
/// characters, in order. `split_ws_state` gives the words completed so far and
/// the word in progress.
pub open spec fn split_ws_state(s: Seq<char>) -> (Seq<Seq<char>>, Seq<char>)
    decreases s.len(),
{
    if s.len() == 0 {
        (seq![], seq![])
    } else {
        let (done, cur) = split_ws_state(s.drop_last());
        if is_white_space(s.last()) {
            if cur.len() > 0 {
                (done.push(cur), seq![])
            } else {
                (done, cur)
            }
        } else {
            (done, cur.push(s.last()))
        }
    }
}

pub open spec fn words(s: Seq<char>) -> Seq<Seq<char>> {
    let (done, cur) = split_ws_state(s);
    if cur.len() > 0 {
        done.push(cur)
    } else {
        done
    }
}

pub(crate) fn words_exec(s: &[char]) -> (r: Vec<Vec<char>>)
    ensures
        r@.map_values(|w: Vec<char>| w@) == words(s@),
{
    let mut done: Vec<Vec<char>> = Vec::new();
    let mut cur: Vec<char> = Vec::new();
    let mut i: usize = 0;
    while i < s.len()
        invariant
            i <= s.len(),
            (done@.map_values(|w: Vec<char>| w@), cur@) == split_ws_state(s@.subrange(0, i as int)),
        decreases s.len() - i,
    {
        let c = s[i];
        proof {
            assert(s@.subrange(0, i + 1).drop_last() =~= s@.subrange(0, i as int));
        }
        if char_is_whitespace(c) {
            if cur.len() > 0 {
                let w = cur;
                done.push(w);
                cur = Vec::new();
                assert(done@.map_values(|w: Vec<char>| w@) =~= split_ws_state(
                    s@.subrange(0, i + 1),
                ).0);
            }
        } else {
            cur.push(c);
        }
        i = i + 1;
    }
    assert(s@.subrange(0, s.len() as int) =~= s@);
    if cur.len() > 0 {
        done.push(cur);
        assert(done@.map_values(|w: Vec<char>| w@) =~= words(s@));
    }
    done
}

proof fn lemma_push_to_set<A>(s: Seq<A>, x: A)
    ensures
        s.push(x).to_set() == s.to_set().insert(x),
{
    assert forall|y: A| #[trigger] s.push(x).to_set().contains(y) == s.to_set().insert(x).contains(
        y,
    ) by {
        if s.push(x).contains(y) {
            let j = choose|j: int| 0 <= j < s.push(x).len() && s.push(x)[j] == y;
            if j < s.len() {
                assert(s[j] == y);
                assert(s.contains(y));
            }
        }
        if s.contains(y) {
            let j = choose|j: int| 0 <= j < s.len() && s[j] == y;
            assert(s.push(x)[j] == y);
        }
        if y == x {
            assert(s.push(x)[s.len() as int] == x);
        }
    }
    assert(s.push(x).to_set() =~= s.to_set().insert(x));
}

/// Whether `w` is one of the words in `ws`.
fn has_word(ws: &Vec<Vec<char>>, w: &Vec<char>) -> (r: bool)
    ensures
        r == ws@.map_values(|x: Vec<char>| x@).contains(w@),
{
    let mut i: usize = 0;
    while i < ws.len()
        invariant
            i <= ws.len(),
            forall|j: int| 0 <= j < i ==> ws@[j]@ != w@,
        decreases ws.len() - i,
    {
        if chars_eq(&ws[i], w) {
            assert(ws@.map_values(|x: Vec<char>| x@)[i as int] == w@);
            return true;
        }
        i = i + 1;
    }
    proof {
        let m = ws@.map_values(|x: Vec<char>| x@);
        if m.contains(w@) {
            let j = choose|j: int| 0 <= j < m.len() && m[j] == w@;
            assert(ws@[j]@ != w@);
        }
    }
    false
}

/// The distinct words of `ws`, in order of first appearance.
fn distinct_words(ws: &Vec<Vec<char>>) -> (r: Vec<Vec<char>>)
    ensures
        r@.map_values(|x: Vec<char>| x@).no_duplicates(),
        r@.map_values(|x: Vec<char>| x@).to_set() == ws@.map_values(|x: Vec<char>| x@).to_set(),
{
    let ghost src = ws@.map_values(|x: Vec<char>| x@);
    let mut r: Vec<Vec<char>> = Vec::new();
    let mut i: usize = 0;
    while i < ws.len()
        invariant
            i <= ws.len(),
            src == ws@.map_values(|x: Vec<char>| x@),
            r@.map_values(|x: Vec<char>| x@).no_duplicates(),
            r@.map_values(|x: Vec<char>| x@).to_set() == src.subrange(0, i as int).to_set(),
        decreases ws.len() - i,
    {
        let ghost before = r@.map_values(|x: Vec<char>| x@);
        let w = ws[i].clone();
        assert(w@ == src[i as int]);
        proof {
            assert(src.subrange(0, i + 1) =~= src.subrange(0, i as int).push(src[i as int]));
            lemma_push_to_set(src.subrange(0, i as int), src[i as int]);
        }
        if !has_word(&r, &w) {
            r.push(w);
            proof {
                assert(r@.map_values(|x: Vec<char>| x@) =~= before.push(src[i as int]));
                lemma_push_to_set(before, src[i as int]);
                assert(r@.map_values(|x: Vec<char>| x@).to_set() =~= before.to_set().insert(
                    src[i as int],
                ));
                assert(src.subrange(0, i + 1).to_set() =~= src.subrange(0, i as int).to_set().insert(
                    src[i as int],
                ));
            }
        } else {
            proof {
                assert(src.subrange(0, i + 1).to_set() =~= src.subrange(0, i as int).to_set().insert(
                    src[i as int],
                ));
                assert(before.to_set().contains(src[i as int]));
                assert(before.to_set().insert(src[i as int]) =~= before.to_set());
            }
        }
        i = i + 1;
    }
    assert(src.subrange(0, ws.len() as int) =~= src);
    r
}

/// The word sets of `a` and `b` share at least 70% of the smaller one
/// (both non-empty).
pub open spec fn words_overlap(a: Seq<char>, b: Seq<char>) -> bool {
    let wa = words(a).to_set();
    let wb = words(b).to_set();
    let common = wa.intersect(wb).len();
    let smaller = if wa.len() <= wb.len() {
        wa.len()
    } else {
        wb.len()
    };
    wa.len() > 0 && wb.len() > 0 && 10 * common >= 7 * smaller
}

/// `titles_match_norm`: equal, or one contains the other (the longer one in
/// UTF-8 bytes contains the shorter), or their word sets overlap by 70%.
pub open spec fn titles_match(a: Seq<char>, b: Seq<char>) -> bool {
    ||| a == b
    ||| a.len() > 0 && b.len() > 0 && {
        ||| encode_utf8(a).len() > encode_utf8(b).len() && contains(a, b)
        ||| encode_utf8(b).len() >= encode_utf8(a).len() && contains(b, a)
        ||| words_overlap(a, b)
    }
}

/// Number of distinct words of `a` that are also words of `b`.
fn common_count(a: &Vec<Vec<char>>, b: &Vec<Vec<char>>) -> (n: usize)
    requires
        a@.map_values(|x: Vec<char>| x@).no_duplicates(),
    ensures
        n as nat == a@.map_values(|x: Vec<char>| x@).to_set().intersect(
            b@.map_values(|x: Vec<char>| x@).to_set(),
        ).len(),
{
    let ghost sa = a@.map_values(|x: Vec<char>| x@);
    let ghost sb = b@.map_values(|x: Vec<char>| x@);
    let mut common: Vec<Vec<char>> = Vec::new();
    let mut i: usize = 0;
    while i < a.len()
        invariant
            i <= a.len(),
            sa == a@.map_values(|x: Vec<char>| x@),
            sb == b@.map_values(|x: Vec<char>| x@),
            sa.no_duplicates(),
            common@.len() <= i,
            common@.map_values(|x: Vec<char>| x@).no_duplicates(),
            common@.map_values(|x: Vec<char>| x@).to_set() == sa.subrange(0, i as int).to_set().intersect(
                sb.to_set(),
            ),
        decreases a.len() - i,
    {
        let ghost before = common@.map_values(|x: Vec<char>| x@);
        let w = a[i].clone();
        assert(w@ == sa[i as int]);
        proof {
            assert(sa.subrange(0, i + 1) =~= sa.subrange(0, i as int).push(sa[i as int]));
            lemma_push_to_set(sa.subrange(0, i as int), sa[i as int]);
            assert(sa.subrange(0, i + 1).to_set() =~= sa.subrange(0, i as int).to_set().insert(
                sa[i as int],
            ));
        }
        if has_word(b, &w) {
            proof {
                assert(!sa.subrange(0, i as int).to_set().contains(sa[i as int])) by {
                    if sa.subrange(0, i as int).to_set().contains(sa[i as int]) {
                        let j = choose|j: int| 0 <= j < i && sa.subrange(0, i as int)[j] == sa[i as int];
                        assert(sa[j] == sa[i as int]);
                    }
                }
                assert(!before.contains(sa[i as int])) by {
                    if before.contains(sa[i as int]) {
                        assert(before.to_set().contains(sa[i as int]));
                    }
                }
            }
            common.push(w);
            proof {
                assert(common@.map_values(|x: Vec<char>| x@) =~= before.push(sa[i as int]));
                lemma_push_to_set(before, sa[i as int]);
                assert(common@.map_values(|x: Vec<char>| x@).to_set() =~= before.to_set().insert(
                    sa[i as int],
                ));
            }
        }
        i = i + 1;
    }
    proof {
        assert(sa.subrange(0, a.len() as int) =~= sa);
        common@.map_values(|x: Vec<char>| x@).unique_seq_to_set();
    }
    common.len()
}

/// Decides whether two normalized titles name the same chapter.
pub fn titles_match_norm(a: &str, b: &str) -> (r: bool)
    ensures
        r == titles_match(a@, b@),
{
    let ac = chars_of(a);
    let bc = chars_of(b);
    if chars_eq(&ac, &bc) {
        return true;
    }
    if ac.len() == 0 || bc.len() == 0 {
        return false;
    }
    let alen = a.as_bytes().len();
    let blen = b.as_bytes().len();
    if alen > blen && contains_exec(&ac, &bc) {
        return true;
    }
    if blen >= alen && contains_exec(&bc, &ac) {
        return true;
    }
    let wa = words_exec(&ac);
    let wb = words_exec(&bc);
    let da = distinct_words(&wa);
    let db = distinct_words(&wb);
    proof {
        da@.map_values(|x: Vec<char>| x@).unique_seq_to_set();
        db@.map_values(|x: Vec<char>| x@).unique_seq_to_set();
    }
    if da.len() == 0 || db.len() == 0 {
        return false;
    }
    let common = common_count(&da, &wb);
    let smaller = if da.len() <= db.len() {
        da.len()
    } else {
        db.len()
    };
    common as u128 * 10 >= smaller as u128 * 7
}

/// Pattern of a chapter reference (`CHAPTER_RE`).
pub open spec fn chapter_pattern() -> Seq<char> {
    "(?i)chapter\\s+\\d+"@
}

/// Pattern of an appendix reference (`APPENDIX_RE`).
pub open spec fn appendix_pattern() -> Seq<char> {
    "(?i)appendix\\s+[a-z]"@
}

/// The lowercased title names a chapter or an appendix.
pub open spec fn names_chapter(title: Seq<char>) -> bool {
    pattern_accepts(chapter_pattern(), lowercase(title)) || pattern_accepts(
        appendix_pattern(),
        lowercase(title),
    )
}

pub fn contains_chapter_keyword(title: &str) -> (r: bool)
    ensures
        r == names_chapter(title@),
{
    let low = str_to_lowercase(title);
    regex_accepts("(?i)chapter\\s+\\d+", low.as_str()) || regex_accepts(
        "(?i)appendix\\s+[a-z]",
        low.as_str(),
    )
}

/// The trailing punctuation that template lines may carry.
pub open spec fn is_line_punct(c: char) -> bool {
    c == ',' || c == '.' || c == ';' || c == ':'
}

/// `s` without its trailing `,` `.` `;` `:` characters (`str::trim_end_matches`).
pub open spec fn trim_end_punct(s: Seq<char>) -> Seq<char>
    decreases s.len(),
{
    if s.len() > 0 && is_line_punct(s.last()) {
        trim_end_punct(s.drop_last())
    } else {
        s
    }
}

/// Pattern of a `{name}` placeholder in an escaped template line (`VAR_RE`).
pub open spec fn var_pattern() -> Seq<char> {
    "\\\\\\{(\\w+)\\\\\\}"@
}

/// The anchored pattern a template line compiles to: the line without its
/// trailing punctuation, escaped, every `{name}` turned into `(.+)`, with one
/// optional trailing punctuation mark allowed.
pub open spec fn line_pattern(template_line: Seq<char>) -> Seq<char> {
    "^"@ + regex_replaced(var_pattern(), regex_escaped(trim_end_punct(template_line)), "(.+)"@)
        + "[,.;:]?$"@
}

/// A page line matches a template line.
pub open spec fn line_matches_spec(template_line: Seq<char>, page_line: Seq<char>) -> bool {
    regex_compiles(var_pattern()) && pattern_accepts(line_pattern(template_line), page_line)
}

fn trim_end_punct_exec(s: &[char]) -> (r: Vec<char>)
    ensures
        r@ == trim_end_punct(s@),
{
    let mut e: usize = s.len();
    assert(s@.subrange(0, e as int) =~= s@);
    while e > 0 && (s[e - 1] == ',' || s[e - 1] == '.' || s[e - 1] == ';' || s[e - 1] == ':')
        invariant
            e <= s.len(),
            trim_end_punct(s@) == trim_end_punct(s@.subrange(0, e as int)),
        decreases e,
    {
        assert(s@.subrange(0, e as int).drop_last() =~= s@.subrange(0, e - 1));
        e = e - 1;
    }
    let mut r: Vec<char> = Vec::new();
    let mut k: usize = 0;
    while k < e
        invariant
            k <= e <= s.len(),
            r@ =~= s@.subrange(0, k as int),
        decreases e - k,
    {
        r.push(s[k]);
        k = k + 1;
    }
    proof {
        if e == s.len() {
            assert(s@.subrange(0, e as int) =~= s@);
        }
    }
    r
}

fn line_matches(template_line: &str, page_line: &str) -> (r: bool)
    ensures
        r == line_matches_spec(template_line@, page_line@),
{
    let tc = chars_of(template_line);
    let cleaned = trim_end_punct_exec(&tc);
    let cleaned_s = string_of(&cleaned);
    let escaped = escape_pattern(cleaned_s.as_str());
    let var_re = match compile_pattern("\\\\\\{(\\w+)\\\\\\}") {
        Some(p) => p,
        None => {
            return false;
        },
    };
    let pattern_str = pattern_replace_all(&var_re, escaped.as_str(), "(.+)");
    let mut full = chars_of("^");
    let body = chars_of(pattern_str.as_str());
    append_chars(&mut full, &body);
    let tail = chars_of("[,.;:]?$");
    append_chars(&mut full, &tail);
    let full_s = string_of(&full);
    regex_accepts(full_s.as_str(), page_line)
}

/// The views of a list of strings.
pub open spec fn texts(v: Seq<String>) -> Seq<Seq<char>> {
    v.map_values(|s: String| s@)
}

/// Lines joined with single spaces (`[String]::join(" ")`).
pub open spec fn join_space(ls: Seq<Seq<char>>) -> Seq<char>
    decreases ls.len(),
{
    if ls.len() == 0 {
        seq![]
    } else if ls.len() == 1 {
        ls[0]
    } else {
        join_space(ls.drop_last()) + seq![' '] + ls.last()
    }
}

fn join_space_exec(ls: &[String], from: usize, to: usize) -> (r: String)
    requires
        from <= to <= ls.len(),
    ensures
        r@ == join_space(texts(ls@).subrange(from as int, to as int)),
{
    let mut out: Vec<char> = Vec::new();
    let mut i: usize = from;
    while i < to
        invariant
            from <= i <= to <= ls.len(),
            out@ == join_space(texts(ls@).subrange(from as int, i as int)),
        decreases to - i,
    {
        let ghost before = texts(ls@).subrange(from as int, i as int);
        let piece = chars_of(ls[i].as_str());
        if i > from {
            out.push(' ');
        }
        append_chars(&mut out, &piece);
        proof {
            let after = texts(ls@).subrange(from as int, i + 1);
            assert(after.drop_last() =~= before);
            assert(after.last() == ls@[i as int]@);
            if i == from {
                assert(out@ =~= after[0]);
            } else {
                assert(out@ =~= join_space(before) + seq![' '] + after.last());
            }
        }
        i = i + 1;
    }
    string_of(&out)
}

/// Tries the template line against one, two, then three page lines joined
/// from `start`, stopping at `limit` (exclusive) lines; yields whether one
/// matched and how many lines it consumed (1 when none did).
pub open spec fn multi_match_from(
    template_line: Seq<char>,
    lines: Seq<Seq<char>>,
    start: int,
    n: int,
    limit: int,
) -> (bool, int)
    decreases limit - n,
{
    if n >= limit {
        (false, 1)
    } else if line_matches_spec(template_line, join_space(lines.subrange(start, start + n))) {
        (true, n)
    } else {
        multi_match_from(template_line, lines, start, n + 1, limit)
    }
}

/// `line_matches_multi`: the first of 1, 2, 3 page lines from `start` (as far
/// as there are lines) whose join matches the template line.
pub open spec fn multi_match(template_line: Seq<char>, lines: Seq<Seq<char>>, start: int) -> (
    bool,
    int,
) {
    let limit = if lines.len() - start + 1 < 4 {
        lines.len() - start + 1
    } else {
        4
    };
    multi_match_from(template_line, lines, start, 1, limit)
}

pub fn line_matches_multi(template_line: &str, page_lines: &[String], start: usize) -> (r: (
    bool,
    usize,
))
    requires
        start <= page_lines.len(),
    ensures
        (r.0, r.1 as int) == multi_match(template_line@, texts(page_lines@), start as int),
        1 <= r.1,
        r.0 ==> start + r.1 <= page_lines.len(),
{
    let rem = page_lines.len() - start;
    let limit: usize = if rem < 3 {
        rem + 1
    } else {
        4
    };
    let mut n: usize = 1;
    while n < limit
        invariant
            1 <= n,
            start <= page_lines.len(),
            limit <= page_lines.len() - start + 1,
            limit == (if page_lines.len() - start + 1 < 4 {
                page_lines.len() - start + 1
            } else {
                4
            }),
            multi_match(template_line@, texts(page_lines@), start as int) == multi_match_from(
                template_line@,
                texts(page_lines@),
                start as int,
                n as int,
                limit as int,
            ),
        decreases limit - n,
    {
        let joined = join_space_exec(page_lines, start, start + n);
        if line_matches(template_line, joined.as_str()) {
            return (true, n);
        }
        n = n + 1;
    }
    (false, 1)
}

/// `match_template`: walks template and page lines together, counting the
/// template lines found in order; an unmatched page line is skipped.
pub open spec fn match_count(tl: Seq<Seq<char>>, pl: Seq<Seq<char>>, ti: int, pi: int) -> nat
    decreases pl.len() - pi,
{
    if ti < 0 || pi < 0 || ti >= tl.len() || pi >= pl.len() {
        0
    } else {
        let (m, c) = multi_match(tl[ti], pl, pi);
        if m && c >= 1 && pi + c <= pl.len() {
            1 + match_count(tl, pl, ti + 1, pi + c)
        } else {
            match_count(tl, pl, ti, pi + 1)
        }
    }
}

pub fn match_template(template_lines: &[String], page_lines: &[String]) -> (n: usize)
    ensures
        n as nat == match_count(texts(template_lines@), texts(page_lines@), 0, 0),
{
    let mut ti: usize = 0;
    let mut pi: usize = 0;
    let mut matched: usize = 0;
    while ti < template_lines.len() && pi < page_lines.len()
        invariant
            ti <= template_lines.len(),
            pi <= page_lines.len(),
            matched <= ti,
            match_count(texts(template_lines@), texts(page_lines@), 0, 0) == matched
                + match_count(texts(template_lines@), texts(page_lines@), ti as int, pi as int),
        decreases page_lines.len() - pi,
    {
        let (m, consumed) = line_matches_multi(template_lines[ti].as_str(), page_lines, pi);
        assert(template_lines@[ti as int]@ == texts(template_lines@)[ti as int]);
        if m {
            ti = ti + 1;
            pi = pi + consumed;
            matched = matched + 1;
        } else {
            pi = pi + 1;
        }
    }
    matched
}

/// The lines of `s` (`str::lines`): pieces between `\n`, each without one
/// trailing `\r`, with no empty piece after a final `\n`. `lines_state`
/// gives the finished lines and the line in progress.
pub open spec fn lines_state(s: Seq<char>) -> (Seq<Seq<char>>, Seq<char>)
    decreases s.len(),
{
    if s.len() == 0 {
        (seq![], seq![])
    } else {
        let (done, cur) = lines_state(s.drop_last());
        if s.last() == '\n' {
            (done.push(strip_cr(cur)), seq![])
        } else {
            (done, cur.push(s.last()))
        }
    }
}

pub open spec fn strip_cr(l: Seq<char>) -> Seq<char> {
    if l.len() > 0 && l.last() == '\r' {
        l.drop_last()
    } else {
        l
    }
}

pub open spec fn lines_of(s: Seq<char>) -> Seq<Seq<char>> {
    let (done, cur) = lines_state(s);
    if cur.len() > 0 {
        done.push(cur)
    } else {
        done
    }
}

/// The non-blank lines of a template, normalized.
pub open spec fn template_lines_of(ls: Seq<Seq<char>>) -> Seq<Seq<char>>
    decreases ls.len(),
{
    if ls.len() == 0 {
        seq![]
    } else if trim(ls.last()).len() > 0 {
        template_lines_of(ls.drop_last()).push(normalized(ls.last()))
    } else {
        template_lines_of(ls.drop_last())
    }
}

fn strip_cr_exec(l: Vec<char>) -> (r: Vec<char>)
    ensures
        r@ == strip_cr(l@),
{
    let mut l = l;
    if l.len() > 0 && l[l.len() - 1] == '\r' {
        l.pop();
    }
    l
}

pub(crate) fn lines_exec(s: &[char]) -> (r: Vec<Vec<char>>)
    ensures
        r@.map_values(|w: Vec<char>| w@) == lines_of(s@),
{
    let mut done: Vec<Vec<char>> = Vec::new();
    let mut cur: Vec<char> = Vec::new();
    let mut i: usize = 0;
    while i < s.len()
        invariant
            i <= s.len(),
            (done@.map_values(|w: Vec<char>| w@), cur@) == lines_state(s@.subrange(0, i as int)),
        decreases s.len() - i,
    {
        let c = s[i];
        proof {
            assert(s@.subrange(0, i + 1).drop_last() =~= s@.subrange(0, i as int));
        }
        if c == '\n' {
            let line = strip_cr_exec(cur);
            done.push(line);
            cur = Vec::new();
            assert(done@.map_values(|w: Vec<char>| w@) =~= lines_state(s@.subrange(0, i + 1)).0);
        } else {
            cur.push(c);
        }
        i = i + 1;
    }
    assert(s@.subrange(0, s.len() as int) =~= s@);
    if cur.len() > 0 {
        done.push(cur);
        assert(done@.map_values(|w: Vec<char>| w@) =~= lines_of(s@));
    }
    done
}

/// The normalized non-blank lines of a template text.
pub fn template_lines(template: &str) -> (r: Vec<String>)
    ensures
        texts(r@) == template_lines_of(lines_of(template@)),
{
    let tc = chars_of(template);
    let ls = lines_exec(&tc);
    let ghost lv = ls@.map_values(|w: Vec<char>| w@);
    let mut out: Vec<String> = Vec::new();
    let mut i: usize = 0;
    while i < ls.len()
        invariant
            i <= ls.len(),
            lv == ls@.map_values(|w: Vec<char>| w@),
            texts(out@) == template_lines_of(lv.subrange(0, i as int)),
        decreases ls.len() - i,
    {
        proof {
            assert(lv.subrange(0, i + 1).drop_last() =~= lv.subrange(0, i as int));
        }
        let t = trim_exec(&ls[i]);
        if t.len() > 0 {
            let line = string_of(&ls[i]);
            let n = normalize(line.as_str());
            out.push(n);
            assert(texts(out@) =~= template_lines_of(lv.subrange(0, i + 1)));
        }
        i = i + 1;
    }
    assert(lv.subrange(0, ls.len() as int) =~= lv);
    out
}

/// The text lines of one page, top to bottom, with its 1-based page number.
#[derive(Debug, Clone)]
pub struct PageLines {
    pub page_number: usize,
    pub lines: Vec<String>,
}

impl View for PageLines {
    type V = (usize, Seq<Seq<char>>);

    open spec fn view(&self) -> (usize, Seq<Seq<char>>) {
        (self.page_number, texts(self.lines@))
    }
}

/// The views of a list of pages.
pub open spec fn page_views(pages: Seq<PageLines>) -> Seq<(usize, Seq<Seq<char>>)> {
    pages.map_values(|p: PageLines| p@)
}

/// Every line normalized.
pub open spec fn normalized_all(ls: Seq<Seq<char>>) -> Seq<Seq<char>> {
    ls.map_values(|l: Seq<char>| normalized(l))
}

/// The page is the one the filter names, or there is no filter.
pub open spec fn page_selected(page_number: usize, filter: Option<usize>) -> bool {
    match filter {
        Some(t) => page_number == t,
        None => true,
    }
}

/// Best number of template lines matched over the selected pages from `i`,
/// starting from `best`; the scan stops at a page that matches every line.
pub open spec fn best_match_from(
    tl: Seq<Seq<char>>,
    pages: Seq<(usize, Seq<Seq<char>>)>,
    filter: Option<usize>,
    i: int,
    best: nat,
) -> nat
    decreases pages.len() - i,
{
    if i < 0 || i >= pages.len() {
        best
    } else if !page_selected(pages[i].0, filter) {
        best_match_from(tl, pages, filter, i + 1, best)
    } else {
        let m = match_count(tl, normalized_all(pages[i].1), 0, 0);
        let b = if m > best {
            m
        } else {
            best
        };
        if m == tl.len() {
            b
        } else {
            best_match_from(tl, pages, filter, i + 1, b)
        }
    }
}

/// What the boilerplate check found.
#[derive(Debug, Clone, Copy, PartialEq, Eq, Structural)]
pub enum BoilerplateOutcome {
    /// The template is blank: nothing to check.
    NoTemplate,
    /// `best_match` of `template_lines` lines were found on the best page;
    /// `passed` when that is at least 70% of them.
    Scored { best_match: usize, template_lines: usize, passed: bool },
}

impl BoilerplateOutcome {
    /// The status of the check: pass without a template or when enough
    /// lines were found, fail otherwise.
    pub fn status(&self) -> (r: Status)
        ensures
            r == (match *self {
                BoilerplateOutcome::NoTemplate => Status::Pass,
                BoilerplateOutcome::Scored { passed, .. } => if passed {
                    Status::Pass
                } else {
                    Status::Fail
                },
            }),
    {
        match self {
            BoilerplateOutcome::NoTemplate => Status::Pass,
            BoilerplateOutcome::Scored { passed, .. } => if *passed {
                Status::Pass
            } else {
                Status::Fail
            },
        }
    }
}

/// The boilerplate verdict for a template over the pages.
pub open spec fn boilerplate_outcome(
    template: Seq<char>,
    filter: Option<usize>,
    pages: Seq<(usize, Seq<Seq<char>>)>,
) -> BoilerplateOutcome {
    if trim(template).len() == 0 {
        BoilerplateOutcome::NoTemplate
    } else {
        let tl = template_lines_of(lines_of(template));
        let best = best_match_from(tl, pages, filter, 0, 0);
        BoilerplateOutcome::Scored {
            best_match: best as usize,
            template_lines: tl.len() as usize,
            passed: !(10 * best < 7 * tl.len()),
        }
    }
}

fn normalize_all_exec(ls: &[String]) -> (r: Vec<String>)
    ensures
        texts(r@) == normalized_all(texts(ls@)),
{
    let mut out: Vec<String> = Vec::new();
    let mut i: usize = 0;
    while i < ls.len()
        invariant
            i <= ls.len(),
            texts(out@) == normalized_all(texts(ls@)).subrange(0, i as int),
        decreases ls.len() - i,
    {
        let ghost before = texts(out@);
        let n = normalize(ls[i].as_str());
        out.push(n);
        assert(texts(out@) =~= before.push(normalized(ls@[i as int]@)));
        assert(normalized_all(texts(ls@)).subrange(0, i + 1) =~= normalized_all(texts(ls@)).subrange(
            0,
            i as int,
        ).push(normalized(ls@[i as int]@)));
        i = i + 1;
    }
    assert(normalized_all(texts(ls@)).subrange(0, ls.len() as int) =~= normalized_all(texts(ls@)));
    out
}

/// The result the boilerplate check reports for an outcome: a pass without
/// a template; a pass naming the matched and template line counts; or a
/// failure whose detail and single note (on the filtered page, else page 0)
/// give those counts and the match percentage `percent`.
pub open spec fn boilerplate_result(o: BoilerplateOutcome, page_filter: Option<usize>, percent: nat) -> CheckResultView {
    match o {
        BoilerplateOutcome::NoTemplate => outcome(Status::Pass, seq![], "No template provided"@),
        BoilerplateOutcome::Scored { best_match, template_lines, passed } => {
            let counts = decimal(best_match as nat) + "/"@ + decimal(template_lines as nat);
            if passed {
                outcome(Status::Pass, seq![], "Template text matches ("@ + counts + " lines)"@)
            } else {
                let page = match page_filter {
                    Some(p) => p,
                    None => 0,
                };
                outcome(
                    Status::Fail,
                    seq![page_note(page, "Only "@ + counts + " template lines matched ("@ + decimal(percent) + "%)"@)],
                    "Template text not found on specified page ("@ + counts + " lines, "@ + decimal(percent)
                        + "%)"@,
                )
            }
        },
    }
}

/// Checks that boilerplate text (with `{name}` placeholders) appears on a page.
pub struct BoilerplateMatchChecker;

impl BoilerplateMatchChecker {
    pub fn category(&self) -> (r: &'static str)
        ensures
            r@ == "content"@,
    {
        "content"
    }

    pub fn name(&self) -> (r: &'static str)
        ensures
            r@ == "boilerplate_match"@,
    {
        "boilerplate_match"
    }

    /// The result reported for an outcome (see `boilerplate_result`);
    /// `percent` is the match percentage as the report writes it.
    pub fn result_of(&self, outcome: BoilerplateOutcome, page_filter: Option<usize>, percent: u32) -> (r:
        CheckResult)
        ensures
            r@ == boilerplate_result(outcome, page_filter, percent as nat),
    {
        match outcome {
            BoilerplateOutcome::NoTemplate => {
                let r = make_result(Status::Pass, Vec::new(), chars_of("No template provided"));
                assert(r@.evidence =~= seq![]);
                r
            },
            BoilerplateOutcome::Scored { best_match, template_lines, passed } => {
                let mut counts = decimal_exec(best_match);
                append_chars(&mut counts, &chars_of("/"));
                append_chars(&mut counts, &decimal_exec(template_lines));
                if passed {
                    let mut d = chars_of("Template text matches (");
                    append_chars(&mut d, &counts);
                    append_chars(&mut d, &chars_of(" lines)"));
                    let r = make_result(Status::Pass, Vec::new(), d);
                    assert(r@.evidence =~= seq![]);
                    r
                } else {
                    let page = match page_filter {
                        Some(p) => p,
                        None => 0,
                    };
                    let pct = decimal_exec(percent as usize);
                    let mut e = chars_of("Only ");
                    append_chars(&mut e, &counts);
                    append_chars(&mut e, &chars_of(" template lines matched ("));
                    append_chars(&mut e, &pct);
                    append_chars(&mut e, &chars_of("%)"));
                    let mut d = chars_of("Template text not found on specified page (");
                    append_chars(&mut d, &counts);
                    append_chars(&mut d, &chars_of(" lines, "));
                    append_chars(&mut d, &pct);
                    append_chars(&mut d, &chars_of("%)"));
                    let note = make_note(page, e);
                    let mut ev: Vec<EvidenceItem> = Vec::new();
                    ev.push(note);
                    let r = make_result(Status::Fail, ev, d);
                    assert(r@.evidence =~= seq![note@]);
                    r
                }
            },
        }
    }

    /// Finds the selected page that matches most template lines in order and
    /// passes when at least 70% of the non-blank template lines are found.
    pub fn evaluate(&self, template: &str, page_filter: Option<usize>, pages: &[PageLines]) -> (r:
        BoilerplateOutcome)
        ensures
            r == boilerplate_outcome(template@, page_filter, page_views(pages@)),
    {
        let tc = chars_of(template);
        let tt = trim_exec(&tc);
        if tt.len() == 0 {
            return BoilerplateOutcome::NoTemplate;
        }
        let tl = template_lines(template);
        let ghost tlv = texts(tl@);
        let ghost pv = page_views(pages@);
        let mut best: usize = 0;
        let mut i: usize = 0;
        let mut finished = false;
        while i < pages.len() && !finished
            invariant
                i <= pages.len(),
                tlv == texts(tl@),
                pv == page_views(pages@),
                best <= tl.len(),
                finished ==> best_match_from(tlv, pv, page_filter, 0, 0) == best as nat,
                !finished ==> best_match_from(tlv, pv, page_filter, 0, 0) == best_match_from(
                    tlv,
                    pv,
                    page_filter,
                    i as int,
                    best as nat,
                ),
            decreases pages.len() - i,
        {
            assert(pv[i as int] == pages@[i as int]@);
            let selected = match page_filter {
                Some(t) => pages[i].page_number == t,
                None => true,
            };
            if selected {
                let normed = normalize_all_exec(&pages[i].lines);
                let m = match_template(&tl, &normed);
                proof {
                    lemma_match_count_bound(tlv, texts(normed@), 0, 0);
                }
                if m > best {
                    best = m;
                }
                if m == tl.len() {
                    finished = true;
                }
            }
            i = i + 1;
        }
        BoilerplateOutcome::Scored {
            best_match: best,
            template_lines: tl.len(),
            passed: !((best as u128) * 10 < (tl.len() as u128) * 7),
        }
    }
}

proof fn lemma_match_count_bound(tl: Seq<Seq<char>>, pl: Seq<Seq<char>>, ti: int, pi: int)
    requires
        0 <= ti <= tl.len(),
    ensures
        match_count(tl, pl, ti, pi) <= tl.len() - ti,
    decreases pl.len() - pi,
{
    if ti < 0 || pi < 0 || ti >= tl.len() || pi >= pl.len() {
    } else {
        let (m, c) = multi_match(tl[ti], pl, pi);
        if m && c >= 1 && pi + c <= pl.len() {
            lemma_match_count_bound(tl, pl, ti + 1, pi + c);
        } else {
            lemma_match_count_bound(tl, pl, ti, pi + 1);
        }
    }
}

/// A separator line: non-empty and made only of `_`, `-` and white space (`SKIP_RE`).
pub open spec fn is_rule_line(s: Seq<char>) -> bool {
    s.len() > 0 && forall|i: int| 0 <= i < s.len() ==> is_rule_char(#[trigger] s[i])
}

pub open spec fn is_rule_char(c: char) -> bool {
    c == '_' || c == '-' || is_white_space(c)
}

fn is_rule_line_exec(s: &[char]) -> (r: bool)
    ensures
        r == is_rule_line(s@),
{
    if s.len() == 0 {
        return false;
    }
    let mut i: usize = 0;
    while i < s.len()
        invariant
            i <= s.len(),
            forall|k: int| 0 <= k < i ==> is_rule_char(#[trigger] s@[k]),
        decreases s.len() - i,
    {
        let c = s[i];
        if !(c == '_' || c == '-' || char_is_whitespace(c)) {
            assert(!is_rule_char(s@[i as int]));
            return false;
        }
        i = i + 1;
    }
    true
}

/// Pattern of a written date such as "May 5, 2025" (`DATE_RE`).
pub open spec fn date_pattern() -> Seq<char> {
    "(?i)^(january|february|march|april|may|june|july|august|september|october|november|december)\\s+\\d{1,2},?\\s+\\d{4}$"@
}

/// Pattern of an academic degree such as "Ph.D." (`DEGREE_RE`).
pub open spec fn degree_pattern() -> Seq<char> {
    "(?i)ph\\.?\\s*d\\.?|m\\.\\s*p\\.\\s*a\\.?|m\\.\\s*a\\.?|m\\.\\s*s\\.?|j\\.?\\s*d\\.?|ed\\.?\\s*d\\.?"@
}

/// `find_committee`: scanning the page's lines from `i`, inside the committee
/// block or not, with the members `acc` found so far. A line mentioning the
/// committee opens the block; a defense date closes it; separator and date
/// lines are skipped; a line with a degree is a member (a chair when it says
/// "chair"); any other line ends the list once a member was found.
pub open spec fn committee_from(
    lines: Seq<Seq<char>>,
    i: int,
    in_committee: bool,
    acc: Seq<(Seq<char>, bool)>,
) -> Seq<(Seq<char>, bool)>
    decreases lines.len() - i,
{
    if i < 0 || i >= lines.len() {
        acc
    } else {
        let line = lines[i];
        let low = lowercase(line);
        if contains(low, "doctoral committee"@) || contains(low, "committee"@) {
            committee_from(lines, i + 1, true, acc)
        } else if !in_committee {
            committee_from(lines, i + 1, in_committee, acc)
        } else if contains(low, "date of defense"@) || contains(low, "defense date"@) {
            acc
        } else if is_rule_line(line) {
            committee_from(lines, i + 1, in_committee, acc)
        } else if pattern_accepts(date_pattern(), low) {
            committee_from(lines, i + 1, in_committee, acc)
        } else if !pattern_accepts(degree_pattern(), low) {
            if acc.len() > 0 && !is_rule_line(line) {
                acc
            } else {
                committee_from(lines, i + 1, in_committee, acc)
            }
        } else {
            committee_from(lines, i + 1, in_committee, acc.push((line, contains(low, "chair"@))))
        }
    }
}

/// The committee members listed on a page, each with whether it is the chair.
pub open spec fn committee_of(lines: Seq<Seq<char>>) -> Seq<(Seq<char>, bool)> {
    committee_from(lines, 0, false, seq![])
}

/// The views of a committee list.
pub open spec fn member_views(c: Seq<(String, bool)>) -> Seq<(Seq<char>, bool)> {
    c.map_values(|m: (String, bool)| (m.0@, m.1))
}

fn has_text(hay: &[char], lit: &str) -> (r: bool)
    ensures
        r == contains(hay@, lit@),
{
    let n = chars_of(lit);
    contains_exec(hay, &n)
}

fn accepts_compiled(p: &Option<Pattern>, haystack: &str, Ghost(pattern): Ghost<Seq<char>>) -> (r: bool)
    requires
        p is Some <==> regex_compiles(pattern),
        p matches Some(q) ==> q@ == pattern,
    ensures
        r == pattern_accepts(pattern, haystack@),
{
    match p {
        Some(q) => pattern_is_match(q, haystack),
        None => false,
    }
}

/// Finds the committee members listed on a page.
pub fn find_committee(lines: &[String]) -> (r: Vec<(String, bool)>)
    ensures
        member_views(r@) == committee_of(texts(lines@)),
{
    let date_re = compile_pattern(
        "(?i)^(january|february|march|april|may|june|july|august|september|october|november|december)\\s+\\d{1,2},?\\s+\\d{4}$",
    );
    let degree_re = compile_pattern(
        "(?i)ph\\.?\\s*d\\.?|m\\.\\s*p\\.\\s*a\\.?|m\\.\\s*a\\.?|m\\.\\s*s\\.?|j\\.?\\s*d\\.?|ed\\.?\\s*d\\.?",
    );
    let ghost lv = texts(lines@);
    let mut committee: Vec<(String, bool)> = Vec::new();
    let mut in_committee = false;
    let mut i: usize = 0;
    assert(member_views(committee@) =~= seq![]);
    while i < lines.len()
        invariant
            i <= lines.len(),
            lv == texts(lines@),
            date_re is Some <==> regex_compiles(date_pattern()),
            date_re matches Some(q) ==> q@ == date_pattern(),
            degree_re is Some <==> regex_compiles(degree_pattern()),
            degree_re matches Some(q) ==> q@ == degree_pattern(),
            committee_of(lv) == committee_from(lv, i as int, in_committee, member_views(
                committee@,
            )),
        decreases lines.len() - i,
    {
        let line = &lines[i];
        let lc = chars_of(line.as_str());
        let low = lowercase_exec(&lc);
        assert(lv[i as int] == lc@);
        if has_text(&low, "doctoral committee") || has_text(&low, "committee") {
            in_committee = true;
            i = i + 1;
            continue;
        }
        if !in_committee {
            i = i + 1;
            continue;
        }
        if has_text(&low, "date of defense") || has_text(&low, "defense date") {
            return committee;
        }
        if is_rule_line_exec(&lc) {
            i = i + 1;
            continue;
        }
        let low_s = string_of(&low);
        if accepts_compiled(&date_re, low_s.as_str(), Ghost(date_pattern())) {
            i = i + 1;
            continue;
        }
        let is_name = accepts_compiled(&degree_re, low_s.as_str(), Ghost(degree_pattern()));
        if !is_name {
            if committee.len() > 0 && !is_rule_line_exec(&lc) {
                return committee;
            }
            i = i + 1;
            continue;
        }
        let is_chair = has_text(&low, "chair");
        let ghost before = member_views(committee@);
        committee.push((line.clone(), is_chair));
        assert(member_views(committee@) =~= before.push((lc@, is_chair)));
        i = i + 1;
    }
    committee
}

/// Evidence for every chair listed after the first position.
pub open spec fn late_chair_notes(page: usize, c: Seq<(Seq<char>, bool)>) -> Seq<EvidenceView>
    decreases c.len(),
{
    if c.len() == 0 {
        seq![]
    } else {
        let r = late_chair_notes(page, c.drop_last());
        let i = c.len() - 1;
        if c.last().1 && i > 0 {
            r.push(
                page_note(
                    page,
                    "Chair '"@ + c.last().0 + "' listed at position "@ + decimal((i + 1) as nat)
                        + ", should be first"@,
                ),
            )
        } else {
            r
        }
    }
}

/// Some member is marked as the chair.
pub open spec fn has_chair(c: Seq<(Seq<char>, bool)>) -> bool {
    exists|i: int| 0 <= i < c.len() && #[trigger] c[i].1
}

/// The verdict on a page whose committee list `c` is not empty.
pub open spec fn committee_verdict(page: usize, c: Seq<(Seq<char>, bool)>, chair_first: bool) -> CheckResultView {
    if chair_first && late_chair_notes(page, c).len() > 0 {
        outcome(Status::Fail, late_chair_notes(page, c), "Committee chair not listed first"@)
    } else if !has_chair(c) {
        outcome(
            Status::Fail,
            seq![page_note(page, "Chair label missing \u{2014} IU requires 'Chair' after chair's degrees"@)],
            "Chair not explicitly labeled"@,
        )
    } else {
        outcome(
            Status::Pass,
            seq![],
            "Committee chair listed first ("@ + decimal(c.len()) + " members)"@,
        )
    }
}

/// The committee check from page `i` on: the first selected page with a
/// committee decides; without one the check is an error.
pub open spec fn committee_check_from(
    pages: Seq<(usize, Seq<Seq<char>>)>,
    chair_first: bool,
    filter: Option<usize>,
    i: int,
) -> CheckResultView
    decreases pages.len() - i,
{
    if i < 0 || i >= pages.len() {
        outcome(Status::Error, seq![], "Committee not found on specified page"@)
    } else if !page_selected(pages[i].0, filter) || committee_of(pages[i].1).len() == 0 {
        committee_check_from(pages, chair_first, filter, i + 1)
    } else {
        committee_verdict(pages[i].0, committee_of(pages[i].1), chair_first)
    }
}

fn concat3(a: &str, b: &[char], c: &str) -> (r: Vec<char>)
    ensures
        r@ == a@ + b@ + c@,
{
    let mut r = chars_of(a);
    append_chars(&mut r, b);
    let cc = chars_of(c);
    append_chars(&mut r, &cc);
    r
}

fn committee_verdict_exec(page: usize, c: &Vec<(String, bool)>, chair_first: bool) -> (r: CheckResult)
    ensures
        r@ == committee_verdict(page, member_views(c@), chair_first),
{
    let ghost cv = member_views(c@);
    if chair_first {
        let mut violations: Vec<EvidenceItem> = Vec::new();
        let mut i: usize = 0;
        while i < c.len()
            invariant
                i <= c.len(),
                cv == member_views(c@),
                violations@.map_values(|e: EvidenceItem| e@) == late_chair_notes(page, cv.subrange(0, i as int)),
            decreases c.len() - i,
        {
            proof {
                assert(cv.subrange(0, i + 1).drop_last() =~= cv.subrange(0, i as int));
            }
            let (ref name, is_chair) = c[i];
            if is_chair && i > 0 {
                let nc = chars_of(name.as_str());
                let pos = decimal_exec(i + 1);
                let mut ex = concat3("Chair '", &nc, "' listed at position ");
                append_chars(&mut ex, &pos);
                let tail = chars_of(", should be first");
                append_chars(&mut ex, &tail);
                let ghost before = violations@.map_values(|e: EvidenceItem| e@);
                let note = make_note(page, ex);
                violations.push(note);
                assert(violations@.map_values(|e: EvidenceItem| e@) =~= before.push(note@));
            }
            i = i + 1;
        }
        assert(cv.subrange(0, c.len() as int) =~= cv);
        if violations.len() > 0 {
            return make_result(Status::Fail, violations, chars_of("Committee chair not listed first"));
        }
        assert(late_chair_notes(page, cv).len() == 0);
    }
    let mut any_chair = false;
    let mut j: usize = 0;
    while j < c.len()
        invariant
            j <= c.len(),
            cv == member_views(c@),
            any_chair == (exists|k: int| 0 <= k < j && #[trigger] cv[k].1),
        decreases c.len() - j,
    {
        if c[j].1 {
            assert(cv[j as int].1);
            any_chair = true;
        }
        j = j + 1;
    }
    assert(any_chair == has_chair(cv));
    if !any_chair {
        let mut ev: Vec<EvidenceItem> = Vec::new();
        let note = make_note(page, chars_of("Chair label missing \u{2014} IU requires 'Chair' after chair's degrees"));
        ev.push(note);
        assert(ev@.map_values(|e: EvidenceItem| e@) =~= seq![note@]);
        return make_result(Status::Fail, ev, chars_of("Chair not explicitly labeled"));
    }
    let n = decimal_exec(c.len());
    let detail = concat3("Committee chair listed first (", &n, " members)");
    let empty: Vec<EvidenceItem> = Vec::new();
    assert(empty@.map_values(|e: EvidenceItem| e@) =~= seq![]);
    make_result(Status::Pass, empty, detail)
}

/// Checks that the committee chair is listed first on the acceptance page.
pub struct CommitteeOrderChecker;

impl CommitteeOrderChecker {
    pub fn category(&self) -> (r: &'static str)
        ensures
            r@ == "content"@,
    {
        "content"
    }

    pub fn name(&self) -> (r: &'static str)
        ensures
            r@ == "committee_order"@,
    {
        "committee_order"
    }

    /// Judges the first selected page that lists a committee.
    pub fn check(&self, pages: &[PageLines], chair_first: bool, page_filter: Option<usize>) -> (r:
        CheckResult)
        ensures
            r@ == committee_check_from(page_views(pages@), chair_first, page_filter, 0),
    {
        let ghost pv = page_views(pages@);
        let mut i: usize = 0;
        while i < pages.len()
            invariant
                i <= pages.len(),
                pv == page_views(pages@),
                committee_check_from(pv, chair_first, page_filter, 0) == committee_check_from(
                    pv,
                    chair_first,
                    page_filter,
                    i as int,
                ),
            decreases pages.len() - i,
        {
            assert(pv[i as int] == pages@[i as int]@);
            let selected = match page_filter {
                Some(t) => pages[i].page_number == t,
                None => true,
            };
            if selected {
                let committee = find_committee(&pages[i].lines);
                if committee.len() > 0 {
                    return committee_verdict_exec(pages[i].page_number, &committee, chair_first);
                }
            }
            i = i + 1;
        }
        let empty: Vec<EvidenceItem> = Vec::new();
        assert(empty@.map_values(|e: EvidenceItem| e@) =~= seq![]);
        make_result(Status::Error, empty, chars_of("Committee not found on specified page"))
    }
}

/// Leaves a check to manual review.
pub struct HumanReviewChecker;

impl HumanReviewChecker {
    pub fn category(&self) -> (r: &'static str)
        ensures
            r@ == "human"@,
    {
        "human"
    }

    pub fn name(&self) -> (r: &'static str)
        ensures
            r@ == "review"@,
    {
        "review"
    }

    /// A manual result whose detail is the prompt, "Manual review required" without one.
    pub fn check(&self, prompt: Option<&str>) -> (r: CheckResult)
        ensures
            r@ == outcome(
                Status::Manual,
                seq![],
                match prompt {
                    Some(p) => p@,
                    None => "Manual review required"@,
                },
            ),
    {
        let text = match prompt {
            Some(p) => chars_of(p),
            None => chars_of("Manual review required"),
        };
        let empty: Vec<EvidenceItem> = Vec::new();
        assert(empty@.map_values(|e: EvidenceItem| e@) =~= seq![]);
        make_result(Status::Manual, empty, text)
    }
}

proof fn lemma_contained_same_bytes(a: Seq<char>, b: Seq<char>)
    requires
        contains(a, b),
        encode_utf8(a).len() == encode_utf8(b).len(),
    ensures
        a == b,
{
    let i = choose|i: int| crate::text::occurs_at(a, b, i);
    let pre = a.subrange(0, i);
    let post = a.subrange(i + b.len(), a.len() as int);
    assert(a =~= pre + b + post);
    crate::text::lemma_encode_concat(pre + b, post);
    crate::text::lemma_encode_concat(pre, b);
    crate::text::lemma_encode_len(pre);
    crate::text::lemma_encode_len(post);
    assert(pre.len() == 0 && post.len() == 0);
    assert(a =~= b);
}

/// Title matching does not depend on the order of the two titles.
pub proof fn titles_match_symmetric(a: Seq<char>, b: Seq<char>)
    ensures
        titles_match(a, b) == titles_match(b, a),
{
    let wa = words(a).to_set();
    let wb = words(b).to_set();
    assert(wa.intersect(wb) =~= wb.intersect(wa));
    if encode_utf8(a).len() == encode_utf8(b).len() {
        if contains(a, b) {
            lemma_contained_same_bytes(a, b);
        }
        if contains(b, a) {
            lemma_contained_same_bytes(b, a);
        }
    }
}

proof fn lemma_multi_match_shift(t: Seq<char>, lines: Seq<Seq<char>>, x: Seq<char>, start: int, n: int, limit: int)
    requires
        0 <= start,
        1 <= n,
        limit <= lines.len() - start + 1,
    ensures
        multi_match_from(t, seq![x] + lines, start + 1, n, limit) == multi_match_from(t, lines, start, n, limit),
    decreases limit - n,
{
    if n < limit {
        assert((seq![x] + lines).subrange(start + 1, start + 1 + n) =~= lines.subrange(start, start + n));
        lemma_multi_match_shift(t, lines, x, start, n + 1, limit);
    }
}

proof fn lemma_match_count_shift(tl: Seq<Seq<char>>, pl: Seq<Seq<char>>, x: Seq<char>, ti: int, pi: int)
    requires
        0 <= pi,
    ensures
        match_count(tl, seq![x] + pl, ti, pi + 1) == match_count(tl, pl, ti, pi),
    decreases pl.len() - pi,
{
    let xp = seq![x] + pl;
    if ti < 0 || ti >= tl.len() || pi >= pl.len() {
    } else {
        let limit = if pl.len() - pi + 1 < 4 {
            pl.len() - pi + 1
        } else {
            4
        };
        lemma_multi_match_shift(tl[ti], pl, x, pi, 1, limit);
        assert(multi_match(tl[ti], xp, pi + 1) == multi_match(tl[ti], pl, pi));
        let (m, c) = multi_match(tl[ti], pl, pi);
        if m && c >= 1 && pi + c <= pl.len() {
            lemma_match_count_shift(tl, pl, x, ti + 1, pi + c);
        } else {
            lemma_match_count_shift(tl, pl, x, ti, pi + 1);
        }
    }
}

/// A page line that starts no match of the first template line (alone or
/// joined with the lines after it) does not change how many template lines
/// a page matches: prepending such a line, like a title above the
/// boilerplate, keeps the count.
pub proof fn unrelated_line_is_skipped(tl: Seq<Seq<char>>, pl: Seq<Seq<char>>, x: Seq<char>)
    requires
        tl.len() > 0,
        !multi_match(tl[0], seq![x] + pl, 0).0,
    ensures
        match_count(tl, seq![x] + pl, 0, 0) == match_count(tl, pl, 0, 0),
{
    lemma_match_count_shift(tl, pl, x, 0, 0);
}

/// Where the search for template line `j` starts: the page line after the
/// one that matched template line `j - 1`.
pub open spec fn search_start(idx: Seq<int>, j: int) -> int {
    if j == 0 {
        0
    } else {
        idx[j - 1] + 1
    }
}

/// The template lines occur on the page in order, each on a line of its own
/// (`idx[j]` is the page line of template line `j`), and the page lines
/// between them start no match of the template line being looked for.
pub open spec fn found_in_order(tl: Seq<Seq<char>>, pl: Seq<Seq<char>>, idx: Seq<int>) -> bool {
    &&& idx.len() == tl.len()
    &&& forall|j: int| 0 <= j < idx.len() ==> 0 <= #[trigger] idx[j] < pl.len()
    &&& forall|i: int, j: int| 0 <= i < j < idx.len() ==> #[trigger] idx[i] < #[trigger] idx[j]
    &&& forall|j: int| 0 <= j < idx.len() ==> line_matches_spec(#[trigger] tl[j], pl[idx[j]])
    &&& forall|j: int, q: int|
        0 <= j < idx.len() && search_start(idx, j) <= q < idx[j] ==> !(#[trigger] multi_match(
            tl[j],
            pl,
            q,
        )).0
}

proof fn lemma_found_in_order(tl: Seq<Seq<char>>, pl: Seq<Seq<char>>, idx: Seq<int>, j: int, q: int)
    requires
        found_in_order(tl, pl, idx),
        0 <= j < tl.len(),
        search_start(idx, j) <= q <= idx[j],
    ensures
        match_count(tl, pl, j, q) == tl.len() - j,
    decreases tl.len() - j, idx[j] - q,
{
    if j > 0 {
        assert(idx[j - 1] < idx[j]);
        assert(0 <= idx[j - 1]);
    }
    assert(0 <= idx[j] < pl.len());
    if q < idx[j] {
        assert(!multi_match(tl[j], pl, q).0);
        lemma_found_in_order(tl, pl, idx, j, q + 1);
        assert(match_count(tl, pl, j, q) == match_count(tl, pl, j, q + 1));
    } else {
        assert(pl.subrange(q, q + 1) =~= seq![pl[q]]);
        assert(line_matches_spec(tl[j], pl[idx[j]]));
        assert(multi_match(tl[j], pl, q) == (true, 1int));
        if j + 1 < tl.len() {
            assert(idx[j] < idx[j + 1]);
            lemma_found_in_order(tl, pl, idx, j + 1, q + 1);
        } else {
            assert(match_count(tl, pl, j + 1, q + 1) == 0);
        }
        assert(match_count(tl, pl, j, q) == 1 + match_count(tl, pl, j + 1, q + 1));
    }
}

/// When the template lines occur on a page in order, each on a line of its
/// own, with no line in between that starts a match of the template line
/// being looked for (titles, blank lines, other text), every template line
/// is counted.
pub proof fn lines_found_in_order_all_match(tl: Seq<Seq<char>>, pl: Seq<Seq<char>>, idx: Seq<int>)
    requires
        found_in_order(tl, pl, idx),
    ensures
        match_count(tl, pl, 0, 0) == tl.len(),
{
    if tl.len() > 0 {
        lemma_found_in_order(tl, pl, idx, 0, 0);
    }
}

proof fn lemma_aligned_lines_match(tl: Seq<Seq<char>>, pl: Seq<Seq<char>>, j: int)
    requires
        0 <= j <= tl.len() <= pl.len(),
        forall|k: int| 0 <= k < tl.len() ==> line_matches_spec(#[trigger] tl[k], pl[k]),
    ensures
        match_count(tl, pl, j, j) == tl.len() - j,
    decreases tl.len() - j,
{
    if j < tl.len() {
        assert(pl.subrange(j, j + 1) =~= seq![pl[j]]);
        assert(line_matches_spec(tl[j], pl[j]));
        assert(multi_match(tl[j], pl, j) == (true, 1int));
        lemma_aligned_lines_match(tl, pl, j + 1);
    }
}

/// When each template line matches the page line at its own position, every
/// template line is counted.
pub proof fn aligned_lines_all_match(tl: Seq<Seq<char>>, pl: Seq<Seq<char>>)
    requires
        tl.len() <= pl.len(),
        forall|k: int| 0 <= k < tl.len() ==> line_matches_spec(#[trigger] tl[k], pl[k]),
    ensures
        match_count(tl, pl, 0, 0) == tl.len(),
{
    lemma_aligned_lines_match(tl, pl, 0);
}

} // verus!
