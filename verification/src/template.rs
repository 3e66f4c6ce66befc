//! Typst templates: choosing the entry file of a template and filling in
//! its `{NAME}` placeholders.

use vstd::prelude::*;
use crate::text::{
    append_chars, chars_eq, chars_of, replace_all, replace_all_exec, str_to_uppercase, string_of,
    uppercase,
};

verus! {

/// One `.typ` file of a template: its path relative to the template
/// directory and its content.
#[derive(Debug, Clone)]
pub struct TemplateFile {
    pub path: String,
    pub content: String,
}

/// A template: its files and the one to compile.
#[derive(Debug, Clone)]
pub struct TemplateSet {
    pub entry: String,
    pub files: Vec<TemplateFile>,
}

/// Why a template cannot be loaded.
#[derive(Debug, Clone, PartialEq, Eq)]
pub enum TemplateError {
    /// The directory holds no `.typ` file.
    NoTypFiles,
}

impl TemplateError {
    pub fn message(&self) -> (r: &'static str)
        ensures
            r@ == "No .typ files found in template directory"@,
    {
        "No .typ files found in template directory"
    }
}

/// Some file is "template.typ".
pub open spec fn has_main_file(files: Seq<TemplateFile>) -> bool {
    exists|i: int| 0 <= i < files.len() && (#[trigger] files[i]).path@ == "template.typ"@
}

/// Builds the template set of the collected files: the entry is
/// "template.typ" when there is such a file, else the first file; with no
/// file at all the template cannot be loaded.
pub fn load_template(files: Vec<TemplateFile>) -> (r: Result<TemplateSet, TemplateError>)
    ensures
        files@.len() == 0 ==> r matches Err(TemplateError::NoTypFiles),
        files@.len() > 0 ==> (r matches Ok(t) && t.files@ == files@ && t.entry@ == (if has_main_file(
            files@,
        ) {
            "template.typ"@
        } else {
            files@[0].path@
        })),
{
    if files.len() == 0 {
        return Err(TemplateError::NoTypFiles);
    }
    let main = chars_of("template.typ");
    let mut found = false;
    let mut i: usize = 0;
    while i < files.len()
        invariant
            i <= files.len(),
            main@ == "template.typ"@,
            found == (exists|k: int| 0 <= k < i && (#[trigger] files@[k]).path@ == "template.typ"@),
        decreases files.len() - i,
    {
        if chars_eq(&chars_of(files[i].path.as_str()), &main) {
            found = true;
        }
        i = i + 1;
    }
    let entry = if found {
        string_of(&main)
    } else {
        files[0].path.clone()
    };
    Ok(TemplateSet { entry, files })
}

/// The placeholder of a variable: its name uppercased, in braces.
pub open spec fn placeholder(name: Seq<char>) -> Seq<char> {
    "{"@ + uppercase(name) + "}"@
}

/// The code after substituting the variables `vars[0..k]` in turn.
pub open spec fn rendered(code: Seq<char>, vars: Seq<(Seq<char>, Seq<char>)>, k: int) -> Seq<char>
    decreases k,
{
    if k <= 0 || k > vars.len() {
        code
    } else {
        replace_all(rendered(code, vars, k - 1), placeholder(vars[k - 1].0), vars[k - 1].1)
    }
}

/// The views of (name, replacement) pairs.
pub open spec fn pair_views(v: Seq<(String, String)>) -> Seq<(Seq<char>, Seq<char>)> {
    v.map_values(|p: (String, String)| (p.0@, p.1@))
}

/// Replaces, variable after variable, every `{NAME}` placeholder (the
/// variable's name uppercased) by the variable's text.
pub fn render_template(code: &str, variables: &[(String, String)]) -> (r: String)
    ensures
        r@ == rendered(code@, pair_views(variables@), variables@.len() as int),
{
    let ghost vv = pair_views(variables@);
    let mut result = chars_of(code);
    let mut i: usize = 0;
    while i < variables.len()
        invariant
            i <= variables.len(),
            vv == pair_views(variables@),
            result@ == rendered(code@, vv, i as int),
        decreases variables.len() - i,
    {
        let (ref name, ref value) = variables[i];
        let mut p = chars_of("{");
        proof {
            reveal_strlit("{");
        }
        append_chars(&mut p, &chars_of(str_to_uppercase(name.as_str()).as_str()));
        append_chars(&mut p, &chars_of("}"));
        result = replace_all_exec(&result, &p, &chars_of(value.as_str()));
        i = i + 1;
    }
    string_of(&result)
}

} // verus!
