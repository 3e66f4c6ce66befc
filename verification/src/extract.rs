//! The parts of document extraction that are decisions on text: heading
//! levels, the extracted document's metadata, and which upload format is
//! read.

use vstd::prelude::*;
use crate::pattern::{compile_pattern, pattern_accepts, pattern_is_match, regex_compiles, Pattern};
use crate::text::{chars_eq, chars_of, contains, contains_exec};

verus! {

/// A heading found in the document.
#[derive(Debug, Clone)]
pub struct Heading {
    pub text: String,
    pub level: usize,
    pub page_number: usize,
    pub raw_text_position: usize,
}

/// What is known of a document as a whole.
#[derive(Debug, Clone)]
pub struct ParsedMetadata {
    pub title: Option<String>,
    pub author: Option<String>,
    pub page_count: usize,
    pub page_count_estimated: bool,
    pub detected_fonts: Vec<String>,
}

/// Numbered sub-section such as "1.2.3" at the start.
pub open spec fn subsection_pattern() -> Seq<char> {
    "^\\d+\\.\\d+\\.\\d+"@
}

/// Numbered section such as "1.2" at the start.
pub open spec fn section_pattern() -> Seq<char> {
    "^\\d+\\.\\d+"@
}

/// "Chapter N" or "Section N" at the start, in any case.
pub open spec fn chapter_start_pattern() -> Seq<char> {
    "(?i)^(chapter|section)\\s+\\d+"@
}

/// The level of a paragraph taken for a heading: 3 for a numbered
/// sub-section, 2 for a numbered section, 1 for a chapter or section title or
/// an all-capitals line, 1 when set at least 4pt above the body size
/// (`big_jump`), 2 otherwise.
pub open spec fn heading_level_of(text: Seq<char>, all_caps: bool, big_jump: bool) -> usize {
    if pattern_accepts(subsection_pattern(), text) {
        3
    } else if pattern_accepts(section_pattern(), text) {
        2
    } else if pattern_accepts(chapter_start_pattern(), text) {
        1
    } else if all_caps {
        1
    } else if big_jump {
        1
    } else {
        2
    }
}

fn accepts(p: &Option<Pattern>, text: &str, Ghost(source): Ghost<Seq<char>>) -> (r: bool)
    requires
        p is Some <==> regex_compiles(source),
        p matches Some(q) ==> q@ == source,
    ensures
        r == pattern_accepts(source, text@),
{
    match p {
        Some(q) => pattern_is_match(q, text),
        None => false,
    }
}

/// The level of a detected heading (see `heading_level_of`).
pub fn heading_level(text: &str, is_all_caps: bool, big_size_jump: bool) -> (r: usize)
    ensures
        r == heading_level_of(text@, is_all_caps, big_size_jump),
{
    let sub = compile_pattern("^\\d+\\.\\d+\\.\\d+");
    if accepts(&sub, text, Ghost(subsection_pattern())) {
        return 3;
    }
    let sec = compile_pattern("^\\d+\\.\\d+");
    if accepts(&sec, text, Ghost(section_pattern())) {
        return 2;
    }
    let ch = compile_pattern("(?i)^(chapter|section)\\s+\\d+");
    if accepts(&ch, text, Ghost(chapter_start_pattern())) {
        return 1;
    }
    if is_all_caps || big_size_jump {
        1
    } else {
        2
    }
}

/// The upload formats the extraction service reads.
#[derive(Debug, Clone, Copy, PartialEq, Eq, Structural)]
pub enum UploadFormat {
    Pdf,
    Docx,
}

/// The format of an upload by its MIME type: PDF, a Word
/// ("wordprocessingml") document, or none; an absent type counts as
/// "application/octet-stream".
pub open spec fn upload_format_of(mime: Option<Seq<char>>) -> Option<UploadFormat> {
    let m = match mime {
        Some(t) => t,
        None => "application/octet-stream"@,
    };
    if m == "application/pdf"@ {
        Some(UploadFormat::Pdf)
    } else if contains(m, "wordprocessingml"@) {
        Some(UploadFormat::Docx)
    } else {
        None
    }
}

/// Decides how an upload is read (see `upload_format_of`).
pub fn upload_format(mime: Option<&str>) -> (r: Option<UploadFormat>)
    ensures
        r == upload_format_of(
            match mime {
                Some(t) => Some(t@),
                None => None,
            },
        ),
{
    let m = match mime {
        Some(t) => chars_of(t),
        None => chars_of("application/octet-stream"),
    };
    if chars_eq(&m, &chars_of("application/pdf")) {
        Some(UploadFormat::Pdf)
    } else if contains_exec(&m, &chars_of("wordprocessingml")) {
        Some(UploadFormat::Docx)
    } else {
        None
    }
}

} // verus!
