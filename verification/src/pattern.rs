//! Regular expressions from the `regex` crate, seen through the answers the
//! crate gives: whether a pattern compiles, whether it matches, what it
//! rewrites and captures.

use vstd::prelude::*;

verus! {

#[verifier::external_type_specification]
#[verifier::external_body]
pub struct ExRegex(regex::Regex);

/// `regex::Regex::new(pattern)` succeeds.
pub uninterp spec fn regex_compiles(pattern: Seq<char>) -> bool;

/// The compiled `pattern` matches somewhere in `haystack` (`Regex::is_match`).
pub uninterp spec fn regex_matches(pattern: Seq<char>, haystack: Seq<char>) -> bool;

/// The characters that have a meaning in a regex (`regex_syntax::is_meta_character`).
pub open spec fn is_regex_meta(c: char) -> bool {
    c == '\\' || c == '.' || c == '+' || c == '*' || c == '?' || c == '(' || c == ')' || c == '|'
        || c == '[' || c == ']' || c == '{' || c == '}' || c == '^' || c == '$' || c == '#' || c
        == '&' || c == '-' || c == '~'
}

/// `text` with a backslash put before every regex meta character, as
/// `regex::escape` writes it.
pub open spec fn regex_escaped(text: Seq<char>) -> Seq<char>
    decreases text.len(),
{
    if text.len() == 0 {
        seq![]
    } else {
        let c = text.last();
        regex_escaped(text.drop_last()) + if is_regex_meta(c) {
            seq!['\\', c]
        } else {
            seq![c]
        }
    }
}

/// `Regex::replace_all(haystack, replacement)` of the compiled `pattern`.
pub uninterp spec fn regex_replaced(pattern: Seq<char>, haystack: Seq<char>, replacement: Seq<
    char,
>) -> Seq<char>;

/// Capture groups 1 and 2 of the leftmost match of `pattern` in `haystack`
/// (`Regex::captures`), or `None` when it does not match.
pub uninterp spec fn regex_capture_pair(pattern: Seq<char>, haystack: Seq<char>) -> Option<
    (Option<Seq<char>>, Option<Seq<char>>),
>;

/// A compiled regular expression together with the pattern it was compiled from.
pub struct Pattern {
    re: regex::Regex,
    source: Ghost<Seq<char>>,
}

impl View for Pattern {
    type V = Seq<char>;

    closed spec fn view(&self) -> Seq<char> {
        self.source@
    }
}

/// The pattern compiles and matches the haystack; a pattern that does not
/// compile matches nothing.
pub open spec fn pattern_accepts(pattern: Seq<char>, haystack: Seq<char>) -> bool {
    regex_compiles(pattern) && regex_matches(pattern, haystack)
}

/// Calls `regex::Regex::new`; it succeeds exactly when the pattern compiles,
/// and the result remembers its pattern.
#[verifier::external_body]
pub(crate) fn compile_pattern(pattern: &str) -> (r: Option<Pattern>)
    ensures
        r is Some <==> regex_compiles(pattern@),
        r matches Some(p) ==> p@ == pattern@,
{
    match regex::Regex::new(pattern) {
        Ok(re) => Some(Pattern { re, source: Ghost(pattern@) }),
        Err(_) => None,
    }
}

/// Calls `Regex::is_match`; the answer is named as a function of pattern and haystack.
#[verifier::external_body]
pub(crate) fn pattern_is_match(p: &Pattern, haystack: &str) -> (b: bool)
    ensures
        b == regex_matches(p@, haystack@),
{
    p.re.is_match(haystack)
}

/// Calls `regex::escape`, which pushes a backslash before each meta character
/// of its input and copies every character.
#[verifier::external_body]
pub(crate) fn escape_pattern(text: &str) -> (r: String)
    ensures
        r@ == regex_escaped(text@),
{
    regex::escape(text)
}

/// Calls `Regex::replace_all`; the result is named as a function of pattern,
/// haystack and replacement.
#[verifier::external_body]
pub(crate) fn pattern_replace_all(p: &Pattern, haystack: &str, replacement: &str) -> (r: String)
    ensures
        r@ == regex_replaced(p@, haystack@, replacement@),
{
    p.re.replace_all(haystack, replacement).into_owned()
}

/// Calls `Regex::captures` and hands out groups 1 and 2 as owned strings.
#[verifier::external_body]
pub(crate) fn pattern_capture_pair(p: &Pattern, haystack: &str) -> (r: Option<
    (Option<String>, Option<String>),
>)
    ensures
        match r {
            None => regex_capture_pair(p@, haystack@) is None,
            Some((a, b)) => regex_capture_pair(p@, haystack@) == Some(
                (
                    match a {
                        Some(s) => Some(s@),
                        None => None::<Seq<char>>,
                    },
                    match b {
                        Some(s) => Some(s@),
                        None => None::<Seq<char>>,
                    },
                ),
            ),
        },
{
    match p.re.captures(haystack) {
        Some(caps) => {
            let first = match caps.get(1) {
                Some(m) => Some(m.as_str().to_string()),
                None => None,
            };
            let second = match caps.get(2) {
                Some(m) => Some(m.as_str().to_string()),
                None => None,
            };
            Some((first, second))
        },
        None => None,
    }
}

/// Whether `pattern` compiles and matches `haystack`.
pub fn regex_accepts(pattern: &str, haystack: &str) -> (b: bool)
    ensures
        b == pattern_accepts(pattern@, haystack@),
{
    match compile_pattern(pattern) {
        Some(p) => pattern_is_match(&p, haystack),
        None => false,
    }
}

} // verus!
