//! Workspace bookkeeping: names, profile identification from a spec's text,
//! check outcomes as the tools report them, the conversion target of a
//! document, the orders in which workspaces and profiles are listed, and
//! whether a path stays inside a workspace.

use vstd::prelude::*;
use crate::checkers::{status_label, CheckResult, CheckResultView, EvidenceItem, EvidenceView, Status};
use crate::content::{lines_exec, lines_of};
use crate::markup::{json_parse_error, json_pretty, parse_json, pretty_json};
use crate::report::result_views;
use crate::text::{
    append_chars, chars_eq, chars_lex_lt, chars_of, contains, contains_exec, lemma_lex_total,
    lemma_lex_transitive, lex_lt, lowercase, lowercase_exec, starts_with, starts_with_exec,
    string_of, trim, trim_exec,
};

verus! {

#[verifier::external_type_specification]
#[verifier::external_body]
pub struct ExSystemTime(std::time::SystemTime);

/// A workspace directory: its name, path, profile and modification time.
#[derive(Debug)]
pub struct WorkspaceInfo {
    pub name: String,
    pub path: std::path::PathBuf,
    pub profile_id: Option<String>,
    pub mtime: std::time::SystemTime,
}

/// An institution profile of the catalog: "scope/id", its scope, its display name.
#[derive(Debug, Clone)]
pub struct ProfileInfo {
    pub id: String,
    pub scope: String,
    pub name: String,
}

/// A workspace name is acceptable: non-empty, without `/`, `..` or NUL.
pub open spec fn valid_name(name: Seq<char>) -> bool {
    name.len() > 0 && !contains(name, "/"@) && !contains(name, ".."@) && !contains(name, "\0"@)
}

/// Accepts a workspace name, or hands it back as the rejected name.
pub fn validate_name(name: &str) -> (r: Result<(), String>)
    ensures
        valid_name(name@) ==> r is Ok,
        !valid_name(name@) ==> (r matches Err(n) && n@ == name@),
{
    let c = chars_of(name);
    if c.len() == 0 || contains_exec(&c, &chars_of("/")) || contains_exec(&c, &chars_of(".."))
        || contains_exec(&c, &chars_of("\0")) {
        return Err(string_of(&c));
    }
    Ok(())
}

/// `s` without leading and trailing `"` characters (`trim_matches('"')`).
pub open spec fn trim_quotes(s: Seq<char>) -> Seq<char>
    decreases s.len(),
{
    if s.len() > 0 && s[0] == '"' {
        trim_quotes(s.drop_first())
    } else if s.len() > 0 && s.last() == '"' {
        trim_quotes(s.drop_last())
    } else {
        s
    }
}

/// The value after `key` on a line that starts with it: trimmed, without quotes.
pub open spec fn key_value(line: Seq<char>, key: Seq<char>) -> Option<Seq<char>> {
    if starts_with(line, key) {
        Some(trim_quotes(trim(line.subrange(key.len() as int, line.len() as int))))
    } else {
        None
    }
}

fn trim_quotes_exec(s: &[char]) -> (r: Vec<char>)
    ensures
        r@ == trim_quotes(s@),
{
    let mut a: usize = 0;
    let mut b: usize = s.len();
    assert(s@.subrange(0, s.len() as int) =~= s@);
    while a < b && (s[a] == '"' || s[b - 1] == '"')
        invariant
            a <= b <= s.len(),
            trim_quotes(s@) == trim_quotes(s@.subrange(a as int, b as int)),
        decreases b - a,
    {
        let ghost cur = s@.subrange(a as int, b as int);
        if s[a] == '"' {
            assert(cur.drop_first() =~= s@.subrange(a + 1, b as int));
            a = a + 1;
        } else {
            assert(cur.drop_last() =~= s@.subrange(a as int, b - 1));
            b = b - 1;
        }
    }
    let mut out: Vec<char> = Vec::new();
    let mut k: usize = a;
    while k < b
        invariant
            a <= k <= b,
            b <= s.len(),
            out@ == s@.subrange(a as int, k as int),
        decreases b - k,
    {
        out.push(s[k]);
        assert(s@.subrange(a as int, k + 1) =~= s@.subrange(a as int, k as int).push(s@[k as int]));
        k = k + 1;
    }
    out
}

fn key_value_exec(line: &Vec<char>, key: &str) -> (r: Option<Vec<char>>)
    ensures
        match r {
            Some(v) => key_value(line@, key@) == Some(v@),
            None => key_value(line@, key@) is None,
        },
{
    let k = chars_of(key);
    if !starts_with_exec(line, &k) {
        return None;
    }
    let mut rest: Vec<char> = Vec::new();
    let mut i: usize = k.len();
    while i < line.len()
        invariant
            k.len() <= i <= line.len(),
            rest@ == line@.subrange(k.len() as int, i as int),
        decreases line.len() - i,
    {
        rest.push(line[i]);
        assert(line@.subrange(k.len() as int, i + 1) =~= line@.subrange(k.len() as int, i as int).push(
            line@[i as int],
        ));
        i = i + 1;
    }
    let t = trim_exec(&rest);
    Some(trim_quotes_exec(&t))
}

/// The profile id of a workspace spec: the value of the first line that
/// starts with "institution:", "server:" or "journal:".
pub open spec fn profile_id_in(lines: Seq<Seq<char>>) -> Option<Seq<char>>
    decreases lines.len(),
{
    if lines.len() == 0 {
        None
    } else {
        let l = lines[0];
        match key_value(l, "institution:"@) {
            Some(v) => Some(v),
            None => match key_value(l, "server:"@) {
                Some(v) => Some(v),
                None => match key_value(l, "journal:"@) {
                    Some(v) => Some(v),
                    None => profile_id_in(lines.drop_first()),
                },
            },
        }
    }
}

/// Reads the profile id from the text of a workspace's spec.yaml.
pub fn profile_id_from_text(text: &str) -> (r: Option<String>)
    ensures
        match r {
            Some(v) => profile_id_in(lines_of(text@)) == Some(v@),
            None => profile_id_in(lines_of(text@)) is None,
        },
{
    let ls = lines_exec(&chars_of(text));
    let ghost lv = ls@.map_values(|w: Vec<char>| w@);
    let mut i: usize = 0;
    assert(lv.subrange(0, lv.len() as int) =~= lv);
    while i < ls.len()
        invariant
            i <= ls.len(),
            lv == ls@.map_values(|w: Vec<char>| w@),
            lv == lines_of(text@),
            profile_id_in(lv) == profile_id_in(lv.subrange(i as int, lv.len() as int)),
        decreases ls.len() - i,
    {
        let ghost rest = lv.subrange(i as int, lv.len() as int);
        assert(rest[0] == ls@[i as int]@);
        assert(rest.drop_first() =~= lv.subrange(i + 1, lv.len() as int));
        let line = &ls[i];
        match key_value_exec(line, "institution:") {
            Some(v) => {
                return Some(string_of(&v));
            },
            None => {},
        }
        match key_value_exec(line, "server:") {
            Some(v) => {
                return Some(string_of(&v));
            },
            None => {},
        }
        match key_value_exec(line, "journal:") {
            Some(v) => {
                return Some(string_of(&v));
            },
            None => {},
        }
        i = i + 1;
    }
    None
}

/// The non-empty value of the first of the name keys that starts the line.
pub open spec fn name_on_line(l: Seq<char>) -> Option<Seq<char>> {
    match nonempty(key_value(l, "institution:"@)) {
        Some(v) => Some(v),
        None => match nonempty(key_value(l, "server:"@)) {
            Some(v) => Some(v),
            None => match nonempty(key_value(l, "journal:"@)) {
                Some(v) => Some(v),
                None => nonempty(key_value(l, "grant:"@)),
            },
        },
    }
}

/// The value when it is present and not empty.
pub open spec fn nonempty(v: Option<Seq<char>>) -> Option<Seq<char>> {
    match v {
        Some(x) => if x.len() > 0 {
            Some(x)
        } else {
            None
        },
        None => None,
    }
}

/// The display name of a profile: the first non-empty value of an
/// "institution:", "server:", "journal:" or "grant:" line.
pub open spec fn profile_name_in(lines: Seq<Seq<char>>) -> Option<Seq<char>>
    decreases lines.len(),
{
    if lines.len() == 0 {
        None
    } else {
        match name_on_line(lines[0]) {
            Some(v) => Some(v),
            None => profile_name_in(lines.drop_first()),
        }
    }
}

fn nonempty_value(line: &Vec<char>, key: &str) -> (r: Option<Vec<char>>)
    ensures
        match r {
            Some(v) => nonempty(key_value(line@, key@)) == Some(v@),
            None => nonempty(key_value(line@, key@)) is None,
        },
{
    match key_value_exec(line, key) {
        Some(v) => if v.len() > 0 {
            Some(v)
        } else {
            None
        },
        None => None,
    }
}

/// Reads the display name from the text of a profile's spec.yaml.
pub fn profile_name_from_text(text: &str) -> (r: Option<String>)
    ensures
        match r {
            Some(v) => profile_name_in(lines_of(text@)) == Some(v@),
            None => profile_name_in(lines_of(text@)) is None,
        },
{
    let ls = lines_exec(&chars_of(text));
    let ghost lv = ls@.map_values(|w: Vec<char>| w@);
    let mut i: usize = 0;
    assert(lv.subrange(0, lv.len() as int) =~= lv);
    while i < ls.len()
        invariant
            i <= ls.len(),
            lv == ls@.map_values(|w: Vec<char>| w@),
            lv == lines_of(text@),
            profile_name_in(lv) == profile_name_in(lv.subrange(i as int, lv.len() as int)),
        decreases ls.len() - i,
    {
        let ghost rest = lv.subrange(i as int, lv.len() as int);
        assert(rest[0] == ls@[i as int]@);
        assert(rest.drop_first() =~= lv.subrange(i + 1, lv.len() as int));
        let line = &ls[i];
        let found = match nonempty_value(line, "institution:") {
            Some(v) => Some(v),
            None => match nonempty_value(line, "server:") {
                Some(v) => Some(v),
                None => match nonempty_value(line, "journal:") {
                    Some(v) => Some(v),
                    None => nonempty_value(line, "grant:"),
                },
            },
        };
        match found {
            Some(v) => {
                return Some(string_of(&v));
            },
            None => {},
        }
        i = i + 1;
    }
    None
}

/// One piece of evidence as the tools report it.
#[derive(Debug, Clone)]
pub struct EvidenceDetail {
    pub page: usize,
    pub excerpt: Option<String>,
}

/// One check outcome as the tools report it.
#[derive(Debug, Clone)]
pub struct CheckOutcome {
    pub id: String,
    pub status: String,
    pub message: String,
    pub page: Option<usize>,
    pub evidence: Vec<EvidenceDetail>,
}

/// The outcome reported for a result: its id, status label, detail as the
/// message, the page of its first evidence, and page and excerpt of each
/// piece of evidence.
pub open spec fn outcome_fits(o: CheckOutcome, r: CheckResultView) -> bool {
    &&& o.id@ == r.check_id
    &&& o.status@ == status_label(r.status)
    &&& o.message@ == r.detail
    &&& o.page == (if r.evidence.len() > 0 {
        Some(r.evidence[0].page)
    } else {
        None
    })
    &&& o.evidence@.len() == r.evidence.len()
    &&& forall|j: int|
        0 <= j < r.evidence.len() ==> (#[trigger] o.evidence@[j]).page == r.evidence[j].page && match (
            o.evidence@[j].excerpt,
            r.evidence[j].excerpt,
        ) {
            (Some(a), Some(b)) => a@ == b,
            (None, None) => true,
            _ => false,
        }
}

fn outcome_of(r: &CheckResult) -> (o: CheckOutcome)
    ensures
        outcome_fits(o, r@),
{
    let mut evidence: Vec<EvidenceDetail> = Vec::new();
    let mut j: usize = 0;
    while j < r.evidence.len()
        invariant
            j <= r.evidence.len(),
            evidence@.len() == j,
            forall|k: int|
                0 <= k < j ==> (#[trigger] evidence@[k]).page == r@.evidence[k].page && match (
                    evidence@[k].excerpt,
                    r@.evidence[k].excerpt,
                ) {
                    (Some(a), Some(b)) => a@ == b,
                    (None, None) => true,
                    _ => false,
                },
        decreases r.evidence.len() - j,
    {
        let e = &r.evidence[j];
        let excerpt = match &e.excerpt {
            Some(x) => Some(x.clone()),
            None => None,
        };
        evidence.push(EvidenceDetail { page: e.page, excerpt });
        j = j + 1;
    }
    let page = if r.evidence.len() > 0 {
        Some(r.evidence[0].page)
    } else {
        None
    };
    CheckOutcome {
        id: r.check_id.clone(),
        status: string_of(&chars_of(r.status.as_str())),
        message: r.detail.clone(),
        page,
        evidence,
    }
}

/// The outcomes reported for the results of a check run, in order.
pub fn outcomes_of(results: &[CheckResult]) -> (r: Vec<CheckOutcome>)
    ensures
        r@.len() == results@.len(),
        forall|i: int| 0 <= i < r@.len() ==> outcome_fits(#[trigger] r@[i], results@[i]@),
{
    let mut out: Vec<CheckOutcome> = Vec::new();
    let mut i: usize = 0;
    while i < results.len()
        invariant
            i <= results.len(),
            out@.len() == i,
            forall|k: int| 0 <= k < i ==> outcome_fits(#[trigger] out@[k], results@[k]@),
        decreases results.len() - i,
    {
        out.push(outcome_of(&results[i]));
        i = i + 1;
    }
    out
}

/// The pandoc output format and output file name for converting a file with
/// the given extension and stem to `format`, or the reason it cannot be
/// converted.
pub open spec fn conversion_target(extension: Seq<char>, stem: Option<Seq<char>>, format: Seq<char>) -> Result<
    (Seq<char>, Seq<char>),
    Seq<char>,
> {
    let ext = lowercase(extension);
    if ext != "docx"@ {
        Err("unsupported extension: ."@ + ext + " (only .docx supported)"@)
    } else if format != "typst"@ && format != "ast"@ {
        Err("unsupported format: "@ + format + " (use \"typst\" or \"ast\")"@)
    } else {
        let base = match stem {
            Some(s) => s,
            None => "document"@,
        };
        if format == "ast"@ {
            Ok(("json"@, base + ".json"@))
        } else {
            Ok(("typst"@, base + ".typst"@))
        }
    }
}

/// Decides how pandoc converts a file: `extension` and `stem` are the file
/// name's parts (an absent extension is empty), `format` the requested one.
pub fn plan_conversion(extension: &str, stem: Option<&str>, format: &str) -> (r: Result<(String, String), String>)
    ensures
        match conversion_target(
            extension@,
            match stem {
                Some(s) => Some(s@),
                None => None,
            },
            format@,
        ) {
            Ok((to, name)) => r matches Ok((a, b)) && a@ == to && b@ == name,
            Err(m) => r matches Err(e) && e@ == m,
        },
{
    let ext = lowercase_exec(&chars_of(extension));
    if !chars_eq(&ext, &chars_of("docx")) {
        let mut m = chars_of("unsupported extension: .");
        append_chars(&mut m, &ext);
        append_chars(&mut m, &chars_of(" (only .docx supported)"));
        return Err(string_of(&m));
    }
    let f = chars_of(format);
    let is_typst = chars_eq(&f, &chars_of("typst"));
    let is_ast = chars_eq(&f, &chars_of("ast"));
    if !is_typst && !is_ast {
        let mut m = chars_of("unsupported format: ");
        append_chars(&mut m, &f);
        append_chars(&mut m, &chars_of(" (use \"typst\" or \"ast\")"));
        return Err(string_of(&m));
    }
    let mut name = match stem {
        Some(s) => chars_of(s),
        None => chars_of("document"),
    };
    if is_ast {
        append_chars(&mut name, &chars_of(".json"));
        Ok((string_of(&chars_of("json")), string_of(&name)))
    } else {
        append_chars(&mut name, &chars_of(".typst"));
        Ok((string_of(&chars_of("typst")), string_of(&name)))
    }
}

/// Entry `a` comes before entry `b` when newest first: a later time, or the
/// same time and an earlier position (the order is stable).
pub open spec fn before_by_recency(times: Seq<i128>, a: int, b: int) -> bool {
    times[a] > times[b] || (times[a] == times[b] && a < b)
}

/// `order` lists positions of `times` newest first: each position of
/// `0..n` once, later times first, equal times in their given order.
pub open spec fn newest_first_order(times: Seq<i128>, order: Seq<usize>, n: int) -> bool {
    &&& forall|i: int| 0 <= i < order.len() ==> #[trigger] order[i] < n
    &&& forall|i: int, j: int| 0 <= i < j < order.len() ==> order[i] != order[j]
    &&& forall|i: int, j: int|
        0 <= i < j < order.len() ==> before_by_recency(times, #[trigger] order[i] as int, #[trigger] order[j] as int)
}

/// The positions of the entries with modification times `times` (as signed
/// nanoseconds from the Unix epoch), newest first; entries with equal times
/// keep their order.
pub fn newest_first(times: &[i128]) -> (order: Vec<usize>)
    ensures
        order@.len() == times@.len(),
        newest_first_order(times@, order@, times@.len() as int),
{
    let mut order: Vec<usize> = Vec::new();
    let mut k: usize = 0;
    while k < times.len()
        invariant
            k <= times.len(),
            order@.len() == k,
            newest_first_order(times@, order@, k as int),
        decreases times.len() - k,
    {
        let mut p: usize = 0;
        while p < order.len() && times[order[p]] >= times[k]
            invariant
                p <= order@.len() == k,
                k < times.len(),
                newest_first_order(times@, order@, k as int),
                forall|i: int| 0 <= i < p ==> times@[#[trigger] order@[i] as int] >= times@[k as int],
            decreases order.len() - p,
        {
            p = p + 1;
        }
        proof {
            assert forall|i: int| p <= i < order@.len() implies times@[#[trigger] order@[i] as int] < times@[k as int] by {
                if i > p {
                    assert(before_by_recency(times@, order@[p as int] as int, order@[i] as int));
                }
            }
        }
        let ghost old_order = order@;
        order.insert(p, k);
        proof {
            assert(order@ == old_order.insert(p as int, k));
            assert forall|i: int| 0 <= i < order@.len() implies #[trigger] order@[i] < k + 1 by {
                if i < p {
                    assert(order@[i] == old_order[i]);
                } else if i > p {
                    assert(order@[i] == old_order[i - 1]);
                }
            }
            assert forall|i: int, j: int| 0 <= i < j < order@.len() implies order@[i] != order@[j]
                && before_by_recency(times@, #[trigger] order@[i] as int, #[trigger] order@[j] as int) by {
                if i < p && j < p {
                    assert(order@[i] == old_order[i] && order@[j] == old_order[j]);
                } else if i < p && j == p {
                    assert(order@[i] == old_order[i]);
                } else if i < p && j > p {
                    assert(order@[i] == old_order[i] && order@[j] == old_order[j - 1]);
                } else if i == p {
                    assert(order@[j] == old_order[j - 1]);
                } else {
                    assert(order@[i] == old_order[i - 1] && order@[j] == old_order[j - 1]);
                }
            }
        }
        k = k + 1;
    }
    order
}

/// Entry `a` comes before entry `b` when listed by text: a smaller text in
/// character order, or the same text and an earlier position.
pub open spec fn before_by_text(ids: Seq<Seq<char>>, a: int, b: int) -> bool {
    lex_lt(ids[a], ids[b]) || (ids[a] == ids[b] && a < b)
}

/// `order` lists positions of `ids` by text: each position of `0..n` once,
/// texts ascending, equal texts in their given order.
pub open spec fn text_order(ids: Seq<Seq<char>>, order: Seq<usize>, n: int) -> bool {
    &&& forall|i: int| 0 <= i < order.len() ==> #[trigger] order[i] < n
    &&& forall|i: int, j: int| 0 <= i < j < order.len() ==> order[i] != order[j]
    &&& forall|i: int, j: int|
        0 <= i < j < order.len() ==> before_by_text(ids, #[trigger] order[i] as int, #[trigger] order[j] as int)
}

/// The positions of entries named by the given texts (profile ids, file
/// names), sorted as `str` orders the texts; entries with equal texts keep
/// their order.
pub fn order_by_text(ids: &[String]) -> (order: Vec<usize>)
    ensures
        order@.len() == ids@.len(),
        text_order(ids@.map_values(|s: String| s@), order@, ids@.len() as int),
{
    let ghost iv = ids@.map_values(|s: String| s@);
    let mut keys: Vec<Vec<char>> = Vec::new();
    let mut m: usize = 0;
    while m < ids.len()
        invariant
            m <= ids.len(),
            keys@.len() == m,
            forall|i: int| 0 <= i < m ==> #[trigger] keys@[i]@ == ids@[i]@,
        decreases ids.len() - m,
    {
        keys.push(chars_of(ids[m].as_str()));
        m = m + 1;
    }
    let mut order: Vec<usize> = Vec::new();
    let mut k: usize = 0;
    while k < ids.len()
        invariant
            k <= ids.len() == keys@.len(),
            iv == ids@.map_values(|s: String| s@),
            forall|i: int| 0 <= i < ids.len() ==> #[trigger] keys@[i]@ == iv[i],
            order@.len() == k,
            text_order(iv, order@, k as int),
        decreases ids.len() - k,
    {
        let mut p: usize = 0;
        while p < order.len() && !chars_lex_lt(&keys[k], &keys[order[p]])
            invariant
                p <= order@.len() == k,
                k < ids.len() == keys@.len(),
                forall|i: int| 0 <= i < ids.len() ==> #[trigger] keys@[i]@ == iv[i],
                text_order(iv, order@, k as int),
                forall|i: int| 0 <= i < p ==> !lex_lt(iv[k as int], #[trigger] iv[order@[i] as int]),
            decreases order.len() - p,
        {
            p = p + 1;
        }
        proof {
            assert forall|i: int| p <= i < order@.len() implies lex_lt(iv[k as int], #[trigger] iv[order@[i] as int]) by {
                if i > p {
                    assert(before_by_text(iv, order@[p as int] as int, order@[i] as int));
                    if lex_lt(iv[order@[p as int] as int], iv[order@[i] as int]) {
                        lemma_lex_transitive(iv[k as int], iv[order@[p as int] as int], iv[order@[i] as int]);
                    }
                }
            }
            assert forall|i: int| 0 <= i < p implies before_by_text(iv, #[trigger] order@[i] as int, k as int) by {
                lemma_lex_total(iv[k as int], iv[order@[i] as int]);
            }
        }
        let ghost old_order = order@;
        order.insert(p, k);
        proof {
            assert(order@ == old_order.insert(p as int, k));
            assert forall|i: int| 0 <= i < order@.len() implies #[trigger] order@[i] < k + 1 by {
                if i < p {
                    assert(order@[i] == old_order[i]);
                } else if i > p {
                    assert(order@[i] == old_order[i - 1]);
                }
            }
            assert forall|i: int, j: int| 0 <= i < j < order@.len() implies order@[i] != order@[j]
                && before_by_text(iv, #[trigger] order@[i] as int, #[trigger] order@[j] as int) by {
                if i < p && j < p {
                    assert(order@[i] == old_order[i] && order@[j] == old_order[j]);
                } else if i < p && j == p {
                    assert(order@[i] == old_order[i]);
                } else if i < p && j > p {
                    assert(order@[i] == old_order[i] && order@[j] == old_order[j - 1]);
                } else if i == p {
                    assert(order@[j] == old_order[j - 1]);
                } else {
                    assert(order@[i] == old_order[i - 1] && order@[j] == old_order[j - 1]);
                }
            }
        }
        k = k + 1;
    }
    order
}

/// The id of the profile `name` in the catalog scope `scope`: "scope/name".
pub fn profile_id(scope: &str, name: &str) -> (r: String)
    ensures
        r@ == scope@ + "/"@ + name@,
{
    let mut t = chars_of(scope);
    append_chars(&mut t, &chars_of("/"));
    append_chars(&mut t, &chars_of(name));
    string_of(&t)
}

/// A path, as its components, lies at or below `root`: `root`'s components
/// begin it.
pub open spec fn path_within(root: Seq<Seq<char>>, candidate: Seq<Seq<char>>) -> bool {
    root.len() <= candidate.len() && forall|i: int| 0 <= i < root.len() ==> #[trigger] root[i] == candidate[i]
}

pub open spec fn component_views(parts: Seq<String>) -> Seq<Seq<char>> {
    parts.map_values(|s: String| s@)
}

/// Whether the path with components `candidate` lies at or below the one
/// with components `root` (both resolved, component by component).
pub fn within(root: &[String], candidate: &[String]) -> (r: bool)
    ensures
        r == path_within(component_views(root@), component_views(candidate@)),
{
    let ghost rv = component_views(root@);
    let ghost cv = component_views(candidate@);
    if root.len() > candidate.len() {
        return false;
    }
    let mut i: usize = 0;
    while i < root.len()
        invariant
            i <= root.len() <= candidate.len(),
            rv == component_views(root@),
            cv == component_views(candidate@),
            forall|k: int| 0 <= k < i ==> #[trigger] rv[k] == cv[k],
        decreases root.len() - i,
    {
        if !chars_eq(&chars_of(root[i].as_str()), &chars_of(candidate[i].as_str())) {
            assert(rv[i as int] != cv[i as int]);
            return false;
        }
        i = i + 1;
    }
    true
}

/// The components of a path with `.` dropped and each `..` removing the
/// component before it (never the root `/`), without looking at the disk.
pub open spec fn normalized(parts: Seq<Seq<char>>) -> Seq<Seq<char>>
    decreases parts.len(),
{
    if parts.len() == 0 {
        seq![]
    } else {
        let pre = normalized(parts.drop_last());
        let last = parts.last();
        if last == "."@ {
            pre
        } else if last == ".."@ {
            if pre.len() > 0 && pre.last() != "/"@ {
                pre.drop_last()
            } else {
                pre
            }
        } else {
            pre.push(last)
        }
    }
}

/// Resolves `.` and `..` in a path's components (see `normalized`).
pub fn normalize_components(parts: &[String]) -> (r: Vec<String>)
    ensures
        component_views(r@) == normalized(component_views(parts@)),
{
    let ghost pv = component_views(parts@);
    let dot = chars_of(".");
    let dots = chars_of("..");
    let slash = chars_of("/");
    let mut out: Vec<String> = Vec::new();
    let mut i: usize = 0;
    assert(pv.subrange(0, 0) =~= seq![]);
    assert(component_views(out@) =~= seq![]);
    while i < parts.len()
        invariant
            i <= parts.len(),
            pv == component_views(parts@),
            dot@ == "."@,
            dots@ == ".."@,
            slash@ == "/"@,
            component_views(out@) == normalized(pv.subrange(0, i as int)),
        decreases parts.len() - i,
    {
        assert(pv.subrange(0, i + 1).drop_last() =~= pv.subrange(0, i as int));
        assert(pv.subrange(0, i + 1).last() == pv[i as int]);
        let ghost before = component_views(out@);
        let c = chars_of(parts[i].as_str());
        if chars_eq(&c, &dot) {
        } else if chars_eq(&c, &dots) {
            if out.len() > 0 && !chars_eq(&chars_of(out[out.len() - 1].as_str()), &slash) {
                out.pop();
                assert(component_views(out@) =~= before.drop_last());
            }
        } else {
            out.push(parts[i].clone());
            assert(component_views(out@) =~= before.push(pv[i as int]));
        }
        i = i + 1;
    }
    assert(pv.subrange(0, parts.len() as int) =~= pv);
    out
}

/// Why the template's reference could not be shown.
#[derive(Debug, Clone, PartialEq, Eq)]
pub enum InterfaceDocError {
    /// The reference is not valid JSON; serde's message.
    InvalidJson(String),
    /// The parsed reference could not be rendered; serde's message.
    Format(String),
}

/// The template reference (REFERENCE.json) re-rendered as pretty JSON for
/// reading: the parse error, or the rendering of what was parsed.
pub fn interface_text(reference: &str) -> (r: Result<String, InterfaceDocError>)
    ensures
        match json_parse_error(reference@) {
            Some(m) => r matches Err(InterfaceDocError::InvalidJson(e)) && e@ == m,
            None => match json_pretty(reference@) {
                Ok(p) => r matches Ok(s) && s@ == p,
                Err(m) => r matches Err(InterfaceDocError::Format(e)) && e@ == m,
            },
        },
{
    match parse_json(reference) {
        Err(m) => Err(InterfaceDocError::InvalidJson(m)),
        Ok(doc) => match pretty_json(&doc) {
            Ok(s) => Ok(s),
            Err(m) => Err(InterfaceDocError::Format(m)),
        },
    }
}

} // verus!
