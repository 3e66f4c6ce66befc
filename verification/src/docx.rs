//! Reading a Word (DOCX) document: the archive's parts come from the `zip`
//! crate and their XML trees from `roxmltree`, as flat lists of nodes; the
//! paragraphs, their formatting (style, run overrides carried from run to
//! run), the document text, the page estimate and the font list are read
//! from those nodes here.

use vstd::prelude::*;
use crate::text::{
    append_chars, char_views, chars_eq, chars_lex_lt, chars_of, is_alphabetic, is_white_space,
    join_with, join_with_exec, lemma_lex_total, lemma_lex_transitive, lex_lt, parse_usize,
    parsed_usize, string_of, trim, trim_exec, char_is_alphabetic, char_is_whitespace, is_upper_case,
    char_is_uppercase, is_ascii_digit,
};

verus! {

/// One node of a parsed XML document. The nodes of a document are listed in
/// document order, the document root first, and a node's descendants follow
/// it directly.
#[derive(Debug, Clone)]
pub struct XmlNode {
    /// Position of the parent node in the list.
    pub parent: Option<usize>,
    /// Namespace URI of an element's name.
    pub namespace: Option<String>,
    /// Local name of an element; empty for other nodes.
    pub name: String,
    /// Namespace URIs in scope at an element.
    pub scope: Vec<String>,
    /// Attributes: namespace URI, local name and value.
    pub attributes: Vec<(Option<String>, String, String)>,
    /// The text of a text node, or of an element's first child when that is text.
    pub text: Option<String>,
}

pub ghost struct XmlAttrView {
    pub namespace: Option<Seq<char>>,
    pub name: Seq<char>,
    pub value: Seq<char>,
}

pub ghost struct XmlNodeView {
    pub parent: Option<usize>,
    pub namespace: Option<Seq<char>>,
    pub name: Seq<char>,
    pub scope: Seq<Seq<char>>,
    pub attributes: Seq<XmlAttrView>,
    pub text: Option<Seq<char>>,
}

pub open spec fn opt_view(o: Option<String>) -> Option<Seq<char>> {
    match o {
        Some(s) => Some(s@),
        None => None,
    }
}

impl View for XmlNode {
    type V = XmlNodeView;

    open spec fn view(&self) -> XmlNodeView {
        XmlNodeView {
            parent: self.parent,
            namespace: opt_view(self.namespace),
            name: self.name@,
            scope: self.scope@.map_values(|s: String| s@),
            attributes: self.attributes@.map_values(|a: (Option<String>, String, String)| attr_view(a)),
            text: opt_view(self.text),
        }
    }
}

pub open spec fn attr_view(a: (Option<String>, String, String)) -> XmlAttrView {
    XmlAttrView { namespace: opt_view(a.0), name: a.1@, value: a.2@ }
}

pub open spec fn node_views(nodes: Seq<XmlNode>) -> Seq<XmlNodeView> {
    nodes.map_values(|n: XmlNode| n@)
}

/// The text of the part `name` of the ZIP archive `bytes`, when the archive
/// opens, holds that part and the part reads as UTF-8.
pub uninterp spec fn zip_part(bytes: Seq<u8>, name: Seq<char>) -> Option<Seq<char>>;

/// The nodes of the XML document `text` in document order, when it parses.
pub uninterp spec fn xml_nodes(text: Seq<char>) -> Option<Seq<XmlNodeView>>;

/// Opens the archive with `zip::ZipArchive::new`, finds the part with
/// `ZipArchive::by_name` and reads it with `Read::read_to_string`; the result
/// is named as a function of the bytes and the part name.
#[verifier::external_body]
fn docx_part(bytes: &[u8], name: &str) -> (r: Option<String>)
    ensures
        opt_view(r) == zip_part(bytes@, name@),
{
    let mut archive = zip::ZipArchive::new(std::io::Cursor::new(bytes)).ok()?;
    let mut part = archive.by_name(name).ok()?;
    let mut text = String::new();
    std::io::Read::read_to_string(&mut part, &mut text).ok()?;
    Some(text)
}

/// Parses with `roxmltree::Document::parse` and lists `Document::descendants`,
/// each node with its parent's position, tag name, namespaces in scope,
/// attributes and text; the result is named as a function of the text.
#[verifier::external_body]
fn parse_xml(text: &str) -> (r: Option<Vec<XmlNode>>)
    ensures
        match r {
            Some(v) => xml_nodes(text@) == Some(node_views(v@)),
            None => xml_nodes(text@) is None,
        },
{
    let doc = roxmltree::Document::parse(text).ok()?;
    Some(doc.descendants().map(|n| XmlNode {
        parent: n.parent().map(|p| p.id().get_usize()),
        namespace: n.tag_name().namespace().map(String::from),
        name: n.tag_name().name().to_string(),
        scope: n.namespaces().map(|s| s.uri().to_string()).collect(),
        attributes: n.attributes().map(|a| (a.namespace().map(String::from), a.name().into(), a.value().into())).collect(),
        text: n.text().map(String::from),
    }).collect())
}

/// The WordprocessingML main namespace.
pub open spec fn wml_uri() -> Seq<char> {
    "http://schemas.openxmlformats.org/wordprocessingml/2006/main"@
}

/// The namespace the document's `w:` names are read in: the WordprocessingML
/// namespace when the document element has it in scope, else the empty name,
/// which no element carries.
pub open spec fn word_namespace(nodes: Seq<XmlNodeView>) -> Seq<char> {
    if exists|i: int|
        0 <= i < nodes.len() && #[trigger] nodes[i].parent == Some(0usize) && nodes[i].scope.contains(
            wml_uri(),
        ) {
        wml_uri()
    } else {
        seq![]
    }
}

/// Node `j` is node `c` or lies below it, following parents back.
pub open spec fn within(nodes: Seq<XmlNodeView>, j: int, c: int) -> bool
    decreases j,
{
    if j == c {
        true
    } else if j < 0 || j >= nodes.len() {
        false
    } else {
        match nodes[j].parent {
            Some(p) => if (p as int) < j {
                within(nodes, p as int, c)
            } else {
                false
            },
            None => false,
        }
    }
}

/// The end of the run of nodes from `j` on that lie below `c`.
pub open spec fn span_end(nodes: Seq<XmlNodeView>, c: int, j: int) -> int
    decreases nodes.len() - j,
{
    if j >= nodes.len() {
        nodes.len() as int
    } else if within(nodes, j, c) {
        span_end(nodes, c, j + 1)
    } else {
        j
    }
}

/// The end of node `c`'s subtree: `c` and its descendants are the positions
/// from `c` up to it.
pub open spec fn subtree_end(nodes: Seq<XmlNodeView>, c: int) -> int {
    span_end(nodes, c, c + 1)
}

/// The node is an element named `local` in the namespace `ns`.
pub open spec fn is_tag(n: XmlNodeView, ns: Seq<char>, local: Seq<char>) -> bool {
    n.namespace == Some(ns) && n.name == local
}

/// The first child of `c` from position `j` on that is the element `ns:local`.
pub open spec fn child_from(nodes: Seq<XmlNodeView>, ns: Seq<char>, c: int, local: Seq<char>, j: int) -> Option<int>
    decreases nodes.len() - j,
{
    if j >= nodes.len() || j >= subtree_end(nodes, c) {
        None
    } else if nodes[j].parent == Some(c as usize) && is_tag(nodes[j], ns, local) {
        Some(j)
    } else {
        child_from(nodes, ns, c, local, j + 1)
    }
}

/// The first child of `c` that is the element `ns:local`.
pub open spec fn child(nodes: Seq<XmlNodeView>, ns: Seq<char>, c: int, local: Seq<char>) -> Option<int> {
    child_from(nodes, ns, c, local, c + 1)
}

/// The value of the first attribute `ns:local` from position `k` on.
pub open spec fn attr_from(attrs: Seq<XmlAttrView>, ns: Seq<char>, local: Seq<char>, k: int) -> Option<Seq<char>>
    decreases attrs.len() - k,
{
    if k < 0 || k >= attrs.len() {
        None
    } else if attrs[k].namespace == Some(ns) && attrs[k].name == local {
        Some(attrs[k].value)
    } else {
        attr_from(attrs, ns, local, k + 1)
    }
}

/// The value of the attribute `ns:local` of a node.
pub open spec fn attr(n: XmlNodeView, ns: Seq<char>, local: Seq<char>) -> Option<Seq<char>> {
    attr_from(n.attributes, ns, local, 0)
}

/// The `val` of a child element, when both exist.
pub open spec fn child_attr(nodes: Seq<XmlNodeView>, ns: Seq<char>, c: int, local: Seq<char>, name: Seq<char>) -> Option<Seq<char>> {
    match child(nodes, ns, c, local) {
        Some(k) => attr(nodes[k], ns, name),
        None => None,
    }
}

fn tag_exec(n: &XmlNode, ns: &[char], local: &[char]) -> (r: bool)
    ensures
        r == is_tag(n@, ns@, local@),
{
    let ns_ok = match &n.namespace {
        Some(x) => chars_eq(&chars_of(x.as_str()), ns),
        None => false,
    };
    ns_ok && chars_eq(&chars_of(n.name.as_str()), local)
}

fn within_exec(nodes: &[XmlNode], j: usize, c: usize) -> (r: bool)
    requires
        j < nodes.len(),
    ensures
        r == within(node_views(nodes@), j as int, c as int),
{
    let ghost nv = node_views(nodes@);
    let mut k = j;
    loop
        invariant
            k < nodes.len(),
            nv == node_views(nodes@),
            within(nv, j as int, c as int) == within(nv, k as int, c as int),
        decreases k,
    {
        if k == c {
            return true;
        }
        assert(nv[k as int].parent == nodes@[k as int].parent);
        match nodes[k].parent {
            Some(p) => {
                if p < k {
                    k = p;
                } else {
                    return false;
                }
            },
            None => {
                return false;
            },
        }
    }
}

fn subtree_end_exec(nodes: &[XmlNode], c: usize) -> (r: usize)
    requires
        c < nodes.len(),
    ensures
        r == subtree_end(node_views(nodes@), c as int),
        c < r <= nodes.len(),
{
    let ghost nv = node_views(nodes@);
    let mut j = c + 1;
    while j < nodes.len() && within_exec(nodes, j, c)
        invariant
            c < j <= nodes.len(),
            nv == node_views(nodes@),
            span_end(nv, c as int, c + 1) == span_end(nv, c as int, j as int),
        decreases nodes.len() - j,
    {
        j = j + 1;
    }
    j
}

fn child_exec(nodes: &[XmlNode], ns: &[char], c: usize, local: &str) -> (r: Option<usize>)
    requires
        c < nodes.len(),
    ensures
        match r {
            Some(k) => child(node_views(nodes@), ns@, c as int, local@) == Some(k as int) && c < k
                < nodes.len(),
            None => child(node_views(nodes@), ns@, c as int, local@) is None,
        },
{
    let ghost nv = node_views(nodes@);
    let end = subtree_end_exec(nodes, c);
    let lc = chars_of(local);
    let mut j = c + 1;
    while j < end
        invariant
            c < j <= end <= nodes.len(),
            nv == node_views(nodes@),
            end == subtree_end(nv, c as int),
            lc@ == local@,
            child_from(nv, ns@, c as int, local@, c + 1) == child_from(nv, ns@, c as int, local@, j as int),
        decreases end - j,
    {
        assert(nv[j as int] == nodes@[j as int]@);
        let is_child = match nodes[j].parent {
            Some(p) => p == c,
            None => false,
        };
        if is_child && tag_exec(&nodes[j], ns, &lc) {
            return Some(j);
        }
        j = j + 1;
    }
    None
}

fn attr_exec(n: &XmlNode, ns: &[char], local: &str) -> (r: Option<String>)
    ensures
        opt_view(r) == attr(n@, ns@, local@),
{
    let ghost av = n.attributes@.map_values(|a: (Option<String>, String, String)| attr_view(a));
    let lc = chars_of(local);
    let mut k: usize = 0;
    while k < n.attributes.len()
        invariant
            k <= n.attributes.len(),
            av == n.attributes@.map_values(|a: (Option<String>, String, String)| attr_view(a)),
            av == n@.attributes,
            lc@ == local@,
            attr_from(av, ns@, local@, 0) == attr_from(av, ns@, local@, k as int),
        decreases n.attributes.len() - k,
    {
        let a = &n.attributes[k];
        let ns_ok = match &a.0 {
            Some(x) => chars_eq(&chars_of(x.as_str()), ns),
            None => false,
        };
        if ns_ok && chars_eq(&chars_of(a.1.as_str()), &lc) {
            return Some(a.2.clone());
        }
        k = k + 1;
    }
    None
}

fn child_attr_exec(nodes: &[XmlNode], ns: &[char], c: usize, local: &str, name: &str) -> (r: Option<String>)
    requires
        c < nodes.len(),
    ensures
        opt_view(r) == child_attr(node_views(nodes@), ns@, c as int, local@, name@),
{
    match child_exec(nodes, ns, c, local) {
        Some(k) => {
            assert(node_views(nodes@)[k as int] == nodes@[k as int]@);
            attr_exec(&nodes[k], ns, name)
        },
        None => None,
    }
}

fn word_namespace_exec(nodes: &[XmlNode]) -> (r: Vec<char>)
    ensures
        r@ == word_namespace(node_views(nodes@)),
{
    let ghost nv = node_views(nodes@);
    let w = chars_of("http://schemas.openxmlformats.org/wordprocessingml/2006/main");
    let mut i: usize = 0;
    while i < nodes.len()
        invariant
            i <= nodes.len(),
            nv == node_views(nodes@),
            w@ == wml_uri(),
            forall|k: int|
                0 <= k < i ==> !(#[trigger] nv[k].parent == Some(0usize) && nv[k].scope.contains(
                    wml_uri(),
                )),
        decreases nodes.len() - i,
    {
        let n = &nodes[i];
        assert(nv[i as int] == n@);
        let top = match n.parent {
            Some(p) => p == 0,
            None => false,
        };
        if top {
            let ghost sv = n.scope@.map_values(|s: String| s@);
            let mut m: usize = 0;
            while m < n.scope.len()
                invariant
                    m <= n.scope.len(),
                    i < nodes.len(),
                    nv == node_views(nodes@),
                    nv[i as int].scope == sv,
                    nv[i as int].parent == Some(0usize),
                    sv == n.scope@.map_values(|s: String| s@),
                    w@ == wml_uri(),
                    forall|q: int| 0 <= q < m ==> sv[q] != wml_uri(),
                decreases n.scope.len() - m,
            {
                if chars_eq(&chars_of(n.scope[m].as_str()), &w) {
                    assert(sv[m as int] == wml_uri());
                    assert(sv.contains(wml_uri()));
                    return w;
                }
                m = m + 1;
            }
        }
        i = i + 1;
    }
    Vec::new()
}

/// Character formatting: weight, slant, underline, size in half-points and
/// the ASCII font.
#[derive(Debug, Clone)]
pub struct RunFormat {
    pub bold: bool,
    pub italic: bool,
    pub underline: bool,
    /// The size in half-points, as written (a decimal number as `f32` reads it).
    pub size_half_points: Option<String>,
    pub font_name: Option<String>,
}

pub ghost struct FormatView {
    pub bold: bool,
    pub italic: bool,
    pub underline: bool,
    pub size: Option<Seq<char>>,
    pub font: Option<Seq<char>>,
}

impl View for RunFormat {
    type V = FormatView;

    open spec fn view(&self) -> FormatView {
        FormatView {
            bold: self.bold,
            italic: self.italic,
            underline: self.underline,
            size: opt_view(self.size_half_points),
            font: opt_view(self.font_name),
        }
    }
}

/// No formatting at all.
pub open spec fn plain_format() -> FormatView {
    FormatView { bold: false, italic: false, underline: false, size: None, font: None }
}

/// A character in lower case, for the letters a number's text may hold.
pub open spec fn fold_case(c: char) -> char {
    if c == 'E' {
        'e'
    } else if c == 'I' {
        'i'
    } else if c == 'N' {
        'n'
    } else if c == 'F' {
        'f'
    } else if c == 'T' {
        't'
    } else if c == 'Y' {
        'y'
    } else if c == 'A' {
        'a'
    } else {
        c
    }
}

/// `s` without one leading sign.
pub open spec fn unsigned_part(s: Seq<char>) -> Seq<char> {
    if s.len() > 0 && (s[0] == '+' || s[0] == '-') {
        s.drop_first()
    } else {
        s
    }
}

/// Digits with at most one `.`, and at least one digit.
pub open spec fn mantissa_text(m: Seq<char>) -> bool {
    &&& forall|i: int| 0 <= i < m.len() ==> is_ascii_digit(#[trigger] m[i]) || m[i] == '.'
    &&& exists|i: int| 0 <= i < m.len() && is_ascii_digit(#[trigger] m[i])
    &&& forall|i: int, j: int| 0 <= i < j < m.len() ==> !(#[trigger] m[i] == '.' && #[trigger] m[j] == '.')
}

/// An optional sign and one or more digits.
pub open spec fn exponent_text(x: Seq<char>) -> bool {
    let d = unsigned_part(x);
    d.len() > 0 && forall|i: int| 0 <= i < d.len() ==> is_ascii_digit(#[trigger] d[i])
}

/// The position of the first `e`.
pub open spec fn first_e(u: Seq<char>, i: int) -> Option<int>
    decreases u.len() - i,
{
    if i < 0 || i >= u.len() {
        None
    } else if u[i] == 'e' {
        Some(i)
    } else {
        first_e(u, i + 1)
    }
}

/// The text is a number as `str::parse::<f32>` accepts it, by the grammar
/// its documentation gives for the lowercased text: an optional sign, then
/// `inf`, `infinity`, `nan`, or digits with at most one `.` and at least one
/// digit, with an optional exponent `e`, sign and digits.
pub open spec fn float_text(s: Seq<char>) -> bool {
    let u = unsigned_part(s.map_values(|c: char| fold_case(c)));
    u == "inf"@ || u == "infinity"@ || u == "nan"@ || match first_e(u, 0) {
        None => mantissa_text(u),
        Some(k) => mantissa_text(u.take(k)) && exponent_text(u.skip(k + 1)),
    }
}

/// A size value in half-points: the text when it reads as a number.
pub open spec fn half_points(v: Seq<char>) -> Option<Seq<char>> {
    if float_text(v) {
        Some(v)
    } else {
        None
    }
}

/// The `w:val` of a `w:sz` element, "0" when it has none.
pub open spec fn size_value(nodes: Seq<XmlNodeView>, ns: Seq<char>, z: int) -> Seq<char> {
    match attr(nodes[z], ns, "val"@) {
        Some(v) => v,
        None => "0"@,
    }
}

/// The formatting a style's `w:rPr` gives; none without one.
pub open spec fn style_format(nodes: Seq<XmlNodeView>, ns: Seq<char>, s: int) -> FormatView {
    match child(nodes, ns, s, "rPr"@) {
        None => plain_format(),
        Some(x) => FormatView {
            bold: child(nodes, ns, x, "b"@) is Some,
            italic: child(nodes, ns, x, "i"@) is Some,
            underline: child(nodes, ns, x, "u"@) is Some,
            size: match child(nodes, ns, x, "sz"@) {
                Some(z) => half_points(size_value(nodes, ns, z)),
                None => None,
            },
            font: child_attr(nodes, ns, x, "rFonts"@, "ascii"@),
        },
    }
}

/// The formatting after run `r`: its `w:rPr` turns on weight, slant and
/// underline, and replaces the size and font it names; the rest carries over.
pub open spec fn run_format(nodes: Seq<XmlNodeView>, ns: Seq<char>, f: FormatView, r: int) -> FormatView {
    match child(nodes, ns, r, "rPr"@) {
        None => f,
        Some(x) => FormatView {
            bold: child(nodes, ns, x, "b"@) is Some || f.bold,
            italic: child(nodes, ns, x, "i"@) is Some || f.italic,
            underline: child(nodes, ns, x, "u"@) is Some || f.underline,
            size: match child(nodes, ns, x, "sz"@) {
                Some(z) => match half_points(size_value(nodes, ns, z)) {
                    Some(n) => Some(n),
                    None => f.size,
                },
                None => f.size,
            },
            font: match child_attr(nodes, ns, x, "rFonts"@, "ascii"@) {
                Some(a) => Some(a),
                None => f.font,
            },
        },
    }
}

fn fold_case_exec(c: char) -> (r: char)
    ensures
        r == fold_case(c),
{
    if c == 'E' {
        'e'
    } else if c == 'I' {
        'i'
    } else if c == 'N' {
        'n'
    } else if c == 'F' {
        'f'
    } else if c == 'T' {
        't'
    } else if c == 'Y' {
        'y'
    } else if c == 'A' {
        'a'
    } else {
        c
    }
}

fn unsigned_exec(s: &[char]) -> (r: Vec<char>)
    ensures
        r@ == unsigned_part(s@),
{
    let start: usize = if s.len() > 0 && (s[0] == '+' || s[0] == '-') {
        1
    } else {
        0
    };
    let mut r: Vec<char> = Vec::new();
    let mut i = start;
    while i < s.len()
        invariant
            start <= i <= s.len(),
            start == (if s@.len() > 0 && (s@[0] == '+' || s@[0] == '-') { 1usize } else { 0usize }),
            r@ == s@.subrange(start as int, i as int),
        decreases s.len() - i,
    {
        r.push(s[i]);
        assert(r@ =~= s@.subrange(start as int, i + 1));
        i = i + 1;
    }
    assert(s@.subrange(start as int, s.len() as int) =~= unsigned_part(s@));
    r
}

fn mantissa_exec(m: &[char], from: usize, to: usize) -> (r: bool)
    requires
        from <= to <= m.len(),
    ensures
        r == mantissa_text(m@.subrange(from as int, to as int)),
{
    let ghost t = m@.subrange(from as int, to as int);
    let mut seen_digit = false;
    let mut dot: Option<usize> = None;
    let mut i = from;
    while i < to
        invariant
            from <= i <= to <= m.len(),
            t == m@.subrange(from as int, to as int),
            forall|k: int| 0 <= k < i - from ==> is_ascii_digit(#[trigger] t[k]) || t[k] == '.',
            seen_digit <==> exists|k: int| 0 <= k < i - from && is_ascii_digit(#[trigger] t[k]),
            match dot {
                Some(d) => from <= d < i && t[d - from] == '.' && forall|k: int|
                    0 <= k < i - from && k != d - from ==> #[trigger] t[k] != '.',
                None => forall|k: int| 0 <= k < i - from ==> #[trigger] t[k] != '.',
            },
        decreases to - i,
    {
        let c = m[i];
        assert(t[i - from] == c);
        if '0' <= c && c <= '9' {
            seen_digit = true;
        } else if c == '.' {
            match dot {
                Some(d) => {
                    assert(t[d - from] == '.' && t[i - from] == '.');
                    assert(!mantissa_text(t));
                    return false;
                },
                None => {
                    dot = Some(i);
                },
            }
        } else {
            assert(!mantissa_text(t));
            return false;
        }
        i = i + 1;
    }
    seen_digit
}

fn all_digits_exec(d: &[char]) -> (r: bool)
    ensures
        r == forall|p: int| 0 <= p < d@.len() ==> is_ascii_digit(#[trigger] d@[p]),
{
    let mut q: usize = 0;
    while q < d.len()
        invariant
            q <= d.len(),
            forall|p: int| 0 <= p < q ==> is_ascii_digit(#[trigger] d@[p]),
        decreases d.len() - q,
    {
        if !('0' <= d[q] && d[q] <= '9') {
            assert(!is_ascii_digit(d@[q as int]));
            return false;
        }
        q = q + 1;
    }
    true
}

fn float_text_exec(s: &[char]) -> (r: bool)
    ensures
        r == float_text(s@),
{
    let mut low: Vec<char> = Vec::new();
    let mut i: usize = 0;
    while i < s.len()
        invariant
            i <= s.len(),
            low@ == s@.subrange(0, i as int).map_values(|c: char| fold_case(c)),
        decreases s.len() - i,
    {
        low.push(fold_case_exec(s[i]));
        assert(low@ =~= s@.subrange(0, i + 1).map_values(|c: char| fold_case(c)));
        i = i + 1;
    }
    assert(s@.subrange(0, s.len() as int) =~= s@);
    let u = unsigned_exec(&low);
    if chars_eq(&u, &chars_of("inf")) || chars_eq(&u, &chars_of("infinity")) || chars_eq(&u, &chars_of("nan")) {
        return true;
    }
    let mut k: usize = 0;
    while k < u.len() && u[k] != 'e'
        invariant
            k <= u.len(),
            first_e(u@, 0) == first_e(u@, k as int),
        decreases u.len() - k,
    {
        k = k + 1;
    }
    if k == u.len() {
        assert(u@.subrange(0, u.len() as int) =~= u@);
        mantissa_exec(&u, 0, u.len())
    } else {
        assert(u@.take(k as int) =~= u@.subrange(0, k as int));
        if !mantissa_exec(&u, 0, k) {
            return false;
        }
        let mut x: Vec<char> = Vec::new();
        let mut j = k + 1;
        while j < u.len()
            invariant
                k < j <= u.len(),
                x@ == u@.subrange(k + 1, j as int),
            decreases u.len() - j,
        {
            x.push(u[j]);
            assert(x@ =~= u@.subrange(k + 1, j + 1));
            j = j + 1;
        }
        assert(x@ =~= u@.skip(k + 1));
        assert(first_e(u@, 0) == Some(k as int));
        assert(u@ != "inf"@ && u@ != "infinity"@ && u@ != "nan"@);
        assert(mantissa_text(u@.take(k as int)));
        let d = unsigned_exec(&x);
        assert(d@ == unsigned_part(u@.skip(k + 1)));
        if d.len() == 0 {
            return false;
        }
        all_digits_exec(&d)
    }
}

fn half_points_exec(v: String) -> (r: Option<String>)
    ensures
        opt_view(r) == half_points(v@),
{
    if float_text_exec(&chars_of(v.as_str())) {
        Some(v)
    } else {
        None
    }
}

fn size_value_exec(nodes: &[XmlNode], ns: &[char], z: usize) -> (r: String)
    requires
        z < nodes.len(),
    ensures
        r@ == size_value(node_views(nodes@), ns@, z as int),
{
    assert(node_views(nodes@)[z as int] == nodes@[z as int]@);
    match attr_exec(&nodes[z], ns, "val") {
        Some(v) => v,
        None => string_of(&chars_of("0")),
    }
}

fn style_format_exec(nodes: &[XmlNode], ns: &[char], s: usize) -> (r: RunFormat)
    requires
        s < nodes.len(),
    ensures
        r@ == style_format(node_views(nodes@), ns@, s as int),
{
    match child_exec(nodes, ns, s, "rPr") {
        None => RunFormat { bold: false, italic: false, underline: false, size_half_points: None, font_name: None },
        Some(x) => {
            let size = match child_exec(nodes, ns, x, "sz") {
                Some(z) => half_points_exec(size_value_exec(nodes, ns, z)),
                None => None,
            };
            RunFormat {
                bold: child_exec(nodes, ns, x, "b").is_some(),
                italic: child_exec(nodes, ns, x, "i").is_some(),
                underline: child_exec(nodes, ns, x, "u").is_some(),
                size_half_points: size,
                font_name: child_attr_exec(nodes, ns, x, "rFonts", "ascii"),
            }
        },
    }
}

fn run_format_exec(nodes: &[XmlNode], ns: &[char], f: RunFormat, r: usize) -> (g: RunFormat)
    requires
        r < nodes.len(),
    ensures
        g@ == run_format(node_views(nodes@), ns@, f@, r as int),
{
    match child_exec(nodes, ns, r, "rPr") {
        None => f,
        Some(x) => {
            let size = match child_exec(nodes, ns, x, "sz") {
                Some(z) => match half_points_exec(size_value_exec(nodes, ns, z)) {
                    Some(n) => Some(n),
                    None => f.size_half_points,
                },
                None => f.size_half_points,
            };
            let font = match child_attr_exec(nodes, ns, x, "rFonts", "ascii") {
                Some(a) => Some(a),
                None => f.font_name,
            };
            RunFormat {
                bold: child_exec(nodes, ns, x, "b").is_some() || f.bold,
                italic: child_exec(nodes, ns, x, "i").is_some() || f.italic,
                underline: child_exec(nodes, ns, x, "u").is_some() || f.underline,
                size_half_points: size,
                font_name: font,
            }
        },
    }
}

/// A paragraph style: its id and the formatting it gives.
#[derive(Debug, Clone)]
pub struct DocxStyle {
    pub id: String,
    pub format: RunFormat,
}

pub ghost struct StyleView {
    pub id: Seq<char>,
    pub format: FormatView,
}

impl View for DocxStyle {
    type V = StyleView;

    open spec fn view(&self) -> StyleView {
        StyleView { id: self.id@, format: self.format@ }
    }
}

pub open spec fn style_views(s: Seq<DocxStyle>) -> Seq<StyleView> {
    s.map_values(|x: DocxStyle| x@)
}

/// The `w:styleId` of a node, empty when it has none.
pub open spec fn style_id(nodes: Seq<XmlNodeView>, ns: Seq<char>, s: int) -> Seq<char> {
    match attr(nodes[s], ns, "styleId"@) {
        Some(v) => v,
        None => seq![],
    }
}

/// The styles among the nodes at `j` and after, below `end`: each `w:style`
/// element with a non-empty id, in document order.
pub open spec fn styles_from(nodes: Seq<XmlNodeView>, ns: Seq<char>, end: int, j: int) -> Seq<StyleView>
    decreases end - j,
{
    if j < 0 || j >= end || j >= nodes.len() {
        seq![]
    } else if is_tag(nodes[j], ns, "style"@) && style_id(nodes, ns, j).len() > 0 {
        seq![StyleView { id: style_id(nodes, ns, j), format: style_format(nodes, ns, j) }] + styles_from(
            nodes,
            ns,
            end,
            j + 1,
        )
    } else {
        styles_from(nodes, ns, end, j + 1)
    }
}

/// The styles of a styles part.
pub open spec fn styles_of(nodes: Seq<XmlNodeView>) -> Seq<StyleView> {
    if nodes.len() == 0 {
        seq![]
    } else {
        styles_from(nodes, word_namespace(nodes), subtree_end(nodes, 0), 0)
    }
}

/// The formatting of the style `id`; a later style with the same id wins.
pub open spec fn style_named(styles: Seq<StyleView>, id: Seq<char>) -> Option<FormatView>
    decreases styles.len(),
{
    if styles.len() == 0 {
        None
    } else if styles.last().id == id {
        Some(styles.last().format)
    } else {
        style_named(styles.drop_last(), id)
    }
}

/// The formatting a paragraph starts with: that of the style its
/// `w:pPr/w:pStyle` names, or none.
pub open spec fn paragraph_start(nodes: Seq<XmlNodeView>, ns: Seq<char>, styles: Seq<StyleView>, p: int) -> FormatView {
    let id = match child(nodes, ns, p, "pPr"@) {
        Some(x) => child_attr(nodes, ns, x, "pStyle"@, "val"@),
        None => None,
    };
    match id {
        Some(i) => match style_named(styles, i) {
            Some(f) => f,
            None => plain_format(),
        },
        None => plain_format(),
    }
}

/// The texts of the `w:t` elements at `j` and after, below `end`, joined.
pub open spec fn texts_from(nodes: Seq<XmlNodeView>, ns: Seq<char>, end: int, j: int) -> Seq<char>
    decreases end - j,
{
    if j < 0 || j >= end || j >= nodes.len() {
        seq![]
    } else {
        let t = if is_tag(nodes[j], ns, "t"@) {
            match nodes[j].text {
                Some(x) => x,
                None => seq![],
            }
        } else {
            seq![]
        };
        t + texts_from(nodes, ns, end, j + 1)
    }
}

/// The text of a run.
pub open spec fn run_text(nodes: Seq<XmlNodeView>, ns: Seq<char>, r: int) -> Seq<char> {
    texts_from(nodes, ns, subtree_end(nodes, r), r)
}

/// Walks the `w:r` elements at `j` and after, below `end`, from formatting
/// `f` and text `text`: each run updates the formatting and adds its text.
pub open spec fn runs_from(nodes: Seq<XmlNodeView>, ns: Seq<char>, end: int, j: int, f: FormatView, text: Seq<char>) -> (FormatView, Seq<char>)
    decreases end - j,
{
    if j < 0 || j >= end || j >= nodes.len() {
        (f, text)
    } else if is_tag(nodes[j], ns, "r"@) {
        runs_from(nodes, ns, end, j + 1, run_format(nodes, ns, f, j), text + run_text(nodes, ns, j))
    } else {
        runs_from(nodes, ns, end, j + 1, f, text)
    }
}

/// Every letter of the text is an uppercase letter.
pub open spec fn all_caps(s: Seq<char>) -> bool {
    forall|i: int| 0 <= i < s.len() ==> !is_alphabetic(#[trigger] s[i]) || is_upper_case(s[i])
}

/// A paragraph of a Word document: its trimmed text, the formatting in force
/// after its last run, and whether its letters are all capitals.
#[derive(Debug, Clone)]
pub struct DocxParagraph {
    pub text: String,
    pub format: RunFormat,
    pub all_caps: bool,
}

pub ghost struct ParagraphView {
    pub text: Seq<char>,
    pub format: FormatView,
    pub all_caps: bool,
}

impl View for DocxParagraph {
    type V = ParagraphView;

    open spec fn view(&self) -> ParagraphView {
        ParagraphView { text: self.text@, format: self.format@, all_caps: self.all_caps }
    }
}

pub open spec fn paragraph_views(p: Seq<DocxParagraph>) -> Seq<ParagraphView> {
    p.map_values(|x: DocxParagraph| x@)
}

/// The paragraph of the `w:p` element `p`, when its trimmed text is not empty.
pub open spec fn paragraph_at(nodes: Seq<XmlNodeView>, ns: Seq<char>, styles: Seq<StyleView>, p: int) -> Option<ParagraphView> {
    let (f, text) = runs_from(nodes, ns, subtree_end(nodes, p), p, paragraph_start(nodes, ns, styles, p), seq![]);
    let t = trim(text);
    if t.len() > 0 {
        Some(ParagraphView { text: t, format: f, all_caps: all_caps(t) })
    } else {
        None
    }
}

/// The paragraphs of the `w:p` elements at `j` and after, below `end`.
pub open spec fn paragraphs_from(nodes: Seq<XmlNodeView>, ns: Seq<char>, styles: Seq<StyleView>, end: int, j: int) -> Seq<ParagraphView>
    decreases end - j,
{
    if j < 0 || j >= end || j >= nodes.len() {
        seq![]
    } else {
        let here = if is_tag(nodes[j], ns, "p"@) {
            match paragraph_at(nodes, ns, styles, j) {
                Some(p) => seq![p],
                None => seq![],
            }
        } else {
            seq![]
        };
        here + paragraphs_from(nodes, ns, styles, end, j + 1)
    }
}

/// The paragraphs of a document part with the given styles: those of the
/// `w:p` elements below `w:body` when the root has that child, else below the
/// root, in document order.
pub open spec fn paragraphs_of(nodes: Seq<XmlNodeView>, styles: Seq<StyleView>) -> Seq<ParagraphView> {
    if nodes.len() == 0 {
        seq![]
    } else {
        let ns = word_namespace(nodes);
        let c = match child(nodes, ns, 0, "body"@) {
            Some(b) => b,
            None => 0,
        };
        paragraphs_from(nodes, ns, styles, subtree_end(nodes, c), c)
    }
}

/// The styles of a parsed styles part (see `styles_of`).
pub fn read_styles(nodes: &[XmlNode]) -> (r: Vec<DocxStyle>)
    ensures
        style_views(r@) == styles_of(node_views(nodes@)),
{
    let ghost nv = node_views(nodes@);
    let mut out: Vec<DocxStyle> = Vec::new();
    if nodes.len() == 0 {
        assert(style_views(out@) =~= seq![]);
        return out;
    }
    let ns = word_namespace_exec(nodes);
    let end = subtree_end_exec(nodes, 0);
    let style_tag = chars_of("style");
    let mut j: usize = 0;
    assert(style_views(out@) + styles_from(nv, ns@, end as int, 0) =~= styles_from(nv, ns@, end as int, 0));
    while j < end
        invariant
            j <= end <= nodes.len(),
            nv == node_views(nodes@),
            style_tag@ == "style"@,
            styles_from(nv, ns@, end as int, 0) == style_views(out@) + styles_from(nv, ns@, end as int, j as int),
        decreases end - j,
    {
        let ghost before = out@;
        assert(nv[j as int] == nodes@[j as int]@);
        if tag_exec(&nodes[j], &ns, &style_tag) {
            let idc = match attr_exec(&nodes[j], &ns, "styleId") {
                Some(v) => chars_of(v.as_str()),
                None => Vec::new(),
            };
            assert(idc@ == style_id(nv, ns@, j as int));
            if idc.len() > 0 {
                let format = style_format_exec(nodes, &ns, j);
                out.push(DocxStyle { id: string_of(&idc), format });
                assert(style_views(out@) =~= style_views(before) + seq![style_views(out@).last()]);
                assert(style_views(out@) + styles_from(nv, ns@, end as int, j + 1) =~= style_views(before)
                    + styles_from(nv, ns@, end as int, j as int));
            }
        }
        j = j + 1;
    }
    assert(styles_from(nv, ns@, end as int, j as int) =~= seq![]);
    assert(style_views(out@) + seq![] =~= style_views(out@));
    out
}

fn copy_format(f: &RunFormat) -> (g: RunFormat)
    ensures
        g@ == f@,
{
    let font_name = match &f.font_name {
        Some(s) => Some(s.clone()),
        None => None,
    };
    RunFormat {
        bold: f.bold,
        italic: f.italic,
        underline: f.underline,
        size_half_points: match &f.size_half_points {
            Some(s) => Some(s.clone()),
            None => None,
        },
        font_name,
    }
}

fn style_named_exec(styles: &[DocxStyle], id: &[char]) -> (r: Option<RunFormat>)
    ensures
        match r {
            Some(f) => style_named(style_views(styles@), id@) == Some(f@),
            None => style_named(style_views(styles@), id@) is None,
        },
{
    let ghost sv = style_views(styles@);
    let mut k = styles.len();
    assert(sv.subrange(0, k as int) =~= sv);
    while k > 0
        invariant
            k <= styles.len(),
            sv == style_views(styles@),
            style_named(sv, id@) == style_named(sv.subrange(0, k as int), id@),
        decreases k,
    {
        let ghost pre = sv.subrange(0, k as int);
        assert(pre.drop_last() =~= sv.subrange(0, k - 1));
        if chars_eq(&chars_of(styles[k - 1].id.as_str()), id) {
            return Some(copy_format(&styles[k - 1].format));
        }
        k = k - 1;
    }
    None
}

fn paragraph_start_exec(nodes: &[XmlNode], ns: &[char], styles: &[DocxStyle], p: usize) -> (r: RunFormat)
    requires
        p < nodes.len(),
    ensures
        r@ == paragraph_start(node_views(nodes@), ns@, style_views(styles@), p as int),
{
    let plain = RunFormat { bold: false, italic: false, underline: false, size_half_points: None, font_name: None };
    let id = match child_exec(nodes, ns, p, "pPr") {
        Some(x) => child_attr_exec(nodes, ns, x, "pStyle", "val"),
        None => None,
    };
    match id {
        Some(i) => match style_named_exec(styles, &chars_of(i.as_str())) {
            Some(f) => f,
            None => plain,
        },
        None => plain,
    }
}

fn run_text_exec(nodes: &[XmlNode], ns: &[char], r: usize, text: &mut Vec<char>)
    requires
        r < nodes.len(),
    ensures
        final(text)@ == old(text)@ + run_text(node_views(nodes@), ns@, r as int),
{
    let ghost nv = node_views(nodes@);
    let end = subtree_end_exec(nodes, r);
    let t_tag = chars_of("t");
    let mut j = r;
    assert(old(text)@ + texts_from(nv, ns@, end as int, r as int) =~= old(text)@ + run_text(nv, ns@, r as int));
    while j < end
        invariant
            r <= j <= end <= nodes.len(),
            nv == node_views(nodes@),
            t_tag@ == "t"@,
            old(text)@ + run_text(nv, ns@, r as int) == text@ + texts_from(nv, ns@, end as int, j as int),
        decreases end - j,
    {
        let ghost before = text@;
        assert(nv[j as int] == nodes@[j as int]@);
        if tag_exec(&nodes[j], ns, &t_tag) {
            match &nodes[j].text {
                Some(x) => {
                    append_chars(text, &chars_of(x.as_str()));
                },
                None => {},
            }
        }
        assert(text@ + texts_from(nv, ns@, end as int, j + 1) =~= before + texts_from(nv, ns@, end as int, j as int));
        j = j + 1;
    }
    assert(texts_from(nv, ns@, end as int, j as int) =~= seq![]);
    assert(text@ + seq![] =~= text@);
}

fn all_caps_exec(s: &[char]) -> (r: bool)
    ensures
        r == all_caps(s@),
{
    let mut i: usize = 0;
    while i < s.len()
        invariant
            i <= s.len(),
            forall|k: int| 0 <= k < i ==> !is_alphabetic(#[trigger] s@[k]) || is_upper_case(s@[k]),
        decreases s.len() - i,
    {
        if char_is_alphabetic(s[i]) && !char_is_uppercase(s[i]) {
            return false;
        }
        i = i + 1;
    }
    true
}

fn paragraph_exec(nodes: &[XmlNode], ns: &[char], styles: &[DocxStyle], p: usize) -> (r: Option<DocxParagraph>)
    requires
        p < nodes.len(),
    ensures
        match r {
            Some(x) => paragraph_at(node_views(nodes@), ns@, style_views(styles@), p as int) == Some(x@),
            None => paragraph_at(node_views(nodes@), ns@, style_views(styles@), p as int) is None,
        },
{
    let ghost nv = node_views(nodes@);
    let ghost sv = style_views(styles@);
    let end = subtree_end_exec(nodes, p);
    let r_tag = chars_of("r");
    let mut f = paragraph_start_exec(nodes, ns, styles, p);
    let mut text: Vec<char> = Vec::new();
    let mut j = p;
    while j < end
        invariant
            p <= j <= end <= nodes.len(),
            nv == node_views(nodes@),
            r_tag@ == "r"@,
            runs_from(nv, ns@, end as int, p as int, paragraph_start(nv, ns@, sv, p as int), seq![])
                == runs_from(nv, ns@, end as int, j as int, f@, text@),
        decreases end - j,
    {
        assert(nv[j as int] == nodes@[j as int]@);
        if tag_exec(&nodes[j], ns, &r_tag) {
            f = run_format_exec(nodes, ns, f, j);
            run_text_exec(nodes, ns, j, &mut text);
        }
        j = j + 1;
    }
    let t = trim_exec(&text);
    if t.len() > 0 {
        let caps = all_caps_exec(&t);
        Some(DocxParagraph { text: string_of(&t), format: f, all_caps: caps })
    } else {
        None
    }
}

/// The paragraphs of a parsed document part with the given styles (see
/// `paragraphs_of`).
pub fn assemble_paragraphs(nodes: &[XmlNode], styles: &[DocxStyle]) -> (r: Vec<DocxParagraph>)
    ensures
        paragraph_views(r@) == paragraphs_of(node_views(nodes@), style_views(styles@)),
{
    let ghost nv = node_views(nodes@);
    let ghost sv = style_views(styles@);
    let mut out: Vec<DocxParagraph> = Vec::new();
    if nodes.len() == 0 {
        assert(paragraph_views(out@) =~= seq![]);
        return out;
    }
    let ns = word_namespace_exec(nodes);
    let c = match child_exec(nodes, &ns, 0, "body") {
        Some(b) => b,
        None => 0,
    };
    let end = subtree_end_exec(nodes, c);
    let p_tag = chars_of("p");
    let mut j = c;
    assert(paragraph_views(out@) + paragraphs_from(nv, ns@, sv, end as int, c as int) =~= paragraphs_from(
        nv,
        ns@,
        sv,
        end as int,
        c as int,
    ));
    while j < end
        invariant
            c <= j <= end <= nodes.len(),
            nv == node_views(nodes@),
            sv == style_views(styles@),
            p_tag@ == "p"@,
            paragraphs_from(nv, ns@, sv, end as int, c as int) == paragraph_views(out@) + paragraphs_from(
                nv,
                ns@,
                sv,
                end as int,
                j as int,
            ),
        decreases end - j,
    {
        let ghost before = out@;
        assert(nv[j as int] == nodes@[j as int]@);
        if tag_exec(&nodes[j], &ns, &p_tag) {
            match paragraph_exec(nodes, &ns, styles, j) {
                Some(x) => {
                    out.push(x);
                    assert(paragraph_views(out@) =~= paragraph_views(before) + seq![paragraph_views(out@).last()]);
                },
                None => {},
            }
        }
        assert(paragraph_views(out@) + paragraphs_from(nv, ns@, sv, end as int, j + 1) =~= paragraph_views(before)
            + paragraphs_from(nv, ns@, sv, end as int, j as int));
        j = j + 1;
    }
    assert(paragraphs_from(nv, ns@, sv, end as int, j as int) =~= seq![]);
    assert(paragraph_views(out@) + seq![] =~= paragraph_views(out@));
    out
}

/// The number of words of a text: maximal runs of characters that are not
/// white space (what `str::split_whitespace` yields).
pub open spec fn word_count(s: Seq<char>) -> nat
    decreases s.len(),
{
    if s.len() == 0 {
        0
    } else {
        word_count(s.drop_last()) + if !is_white_space(s.last()) && (s.len() == 1 || is_white_space(
            s[s.len() - 2],
        )) {
            1nat
        } else {
            0nat
        }
    }
}

proof fn lemma_word_count_bounded(s: Seq<char>)
    ensures
        word_count(s) <= s.len(),
    decreases s.len(),
{
    if s.len() > 0 {
        lemma_word_count_bounded(s.drop_last());
    }
}

fn word_count_exec(s: &[char]) -> (r: usize)
    ensures
        r == word_count(s@),
{
    let mut n: usize = 0;
    let mut i: usize = 0;
    while i < s.len()
        invariant
            i <= s.len(),
            n == word_count(s@.subrange(0, i as int)),
            n <= i,
        decreases s.len() - i,
    {
        let ghost pre = s@.subrange(0, i + 1);
        assert(pre.drop_last() =~= s@.subrange(0, i as int));
        proof {
            lemma_word_count_bounded(s@.subrange(0, i as int));
        }
        if !char_is_whitespace(s[i]) && (i == 0 || char_is_whitespace(s[i - 1])) {
            n = n + 1;
        }
        i = i + 1;
    }
    assert(s@.subrange(0, s.len() as int) =~= s@);
    n
}

/// The estimated number of pages of a text of `words` words: one page per
/// 250 words begun, and at least one.
pub open spec fn pages_for(words: nat) -> nat {
    if words == 0 {
        1
    } else {
        ((words + 249) / 250) as nat
    }
}

/// The page estimate for a word count (see `pages_for`).
pub fn estimated_page_count(words: usize) -> (r: usize)
    ensures
        r == pages_for(words as nat),
{
    if words == 0 {
        1
    } else {
        let q = words / 250;
        let rest = words % 250;
        assert((words + 249) / 250 == q + if rest > 0 { 1int } else { 0int }) by (nonlinear_arith)
            requires
                q == words / 250,
                rest == words % 250,
                words > 0,
        ;
        if rest > 0 {
            q + 1
        } else {
            q
        }
    }
}

/// The fonts `fs` list the fonts the paragraphs name: ascending in character
/// order (so each once), each named by a paragraph, every named one listed.
pub open spec fn fonts_listed(fs: Seq<Seq<char>>, ps: Seq<ParagraphView>) -> bool {
    &&& forall|i: int, j: int| 0 <= i < j < fs.len() ==> lex_lt(#[trigger] fs[i], #[trigger] fs[j])
    &&& forall|i: int|
        0 <= i < fs.len() ==> exists|k: int| 0 <= k < ps.len() && #[trigger] ps[k].format.font == Some(#[trigger] fs[i])
    &&& forall|k: int|
        0 <= k < ps.len() && (#[trigger] ps[k].format.font) is Some ==> fs.contains(ps[k].format.font->0)
}

fn distinct_fonts(ps: &[DocxParagraph]) -> (r: Vec<String>)
    ensures
        fonts_listed(r@.map_values(|s: String| s@), paragraph_views(ps@)),
{
    let ghost pv = paragraph_views(ps@);
    let mut fs: Vec<String> = Vec::new();
    let mut k: usize = 0;
    while k < ps.len()
        invariant
            k <= ps.len(),
            pv == paragraph_views(ps@),
            fonts_listed(fs@.map_values(|s: String| s@), pv.subrange(0, k as int)),
        decreases ps.len() - k,
    {
        let ghost fv = fs@.map_values(|s: String| s@);
        let ghost pk = pv.subrange(0, k as int);
        let ghost pk1 = pv.subrange(0, k + 1);
        assert(pv[k as int] == ps@[k as int]@);
        match &ps[k].format.font_name {
            None => {
                assert forall|i: int| 0 <= i < fv.len() implies exists|m: int|
                    0 <= m < pk1.len() && #[trigger] pk1[m].format.font == Some(#[trigger] fv[i]) by {
                    let m = choose|m: int| 0 <= m < pk.len() && #[trigger] pk[m].format.font == Some(fv[i]);
                    assert(pk1[m] == pk[m]);
                }
                assert forall|m: int| 0 <= m < pk1.len() && (#[trigger] pk1[m].format.font) is Some implies fv.contains(
                    pk1[m].format.font->0,
                ) by {
                    if m < k {
                        assert(pk1[m] == pk[m]);
                        assert(pk[m].format.font is Some);
                    } else {
                        assert(pk1[m] == pv[k as int]);
                    }
                }
            },
            Some(name) => {
                let nc = chars_of(name.as_str());
                let mut p: usize = 0;
                while p < fs.len() && chars_lex_lt(&chars_of(fs[p].as_str()), &nc)
                    invariant
                        p <= fs.len(),
                        fv == fs@.map_values(|s: String| s@),
                        forall|i: int| 0 <= i < p ==> lex_lt(#[trigger] fv[i], nc@),
                    decreases fs.len() - p,
                {
                    p = p + 1;
                }
                let present = p < fs.len() && chars_eq(&chars_of(fs[p].as_str()), &nc);
                if present {
                    assert(fv[p as int] == nc@);
                    assert forall|i: int| 0 <= i < fv.len() implies exists|m: int|
                        0 <= m < pk1.len() && #[trigger] pk1[m].format.font == Some(#[trigger] fv[i]) by {
                        let m = choose|m: int| 0 <= m < pk.len() && #[trigger] pk[m].format.font == Some(fv[i]);
                        assert(pk1[m] == pk[m]);
                    }
                    assert forall|m: int| 0 <= m < pk1.len() && (#[trigger] pk1[m].format.font) is Some implies fv.contains(
                        pk1[m].format.font->0,
                    ) by {
                        if m < k {
                            assert(pk1[m] == pk[m]);
                            assert(pk[m].format.font is Some);
                        } else {
                            assert(pk1[m] == pv[k as int]);
                            assert(fv[p as int] == pk1[m].format.font->0);
                        }
                    }
                } else {
                    proof {
                        assert forall|i: int| p <= i < fv.len() implies lex_lt(nc@, #[trigger] fv[i]) by {
                            lemma_lex_total(nc@, fv[p as int]);
                            if i > p {
                                lemma_lex_transitive(nc@, fv[p as int], fv[i]);
                            }
                        }
                    }
                    fs.insert(p, string_of(&nc));
                    let ghost nf = fs@.map_values(|s: String| s@);
                    assert(nf =~= fv.insert(p as int, nc@));
                    assert forall|i: int, j: int| 0 <= i < j < nf.len() implies lex_lt(#[trigger] nf[i], #[trigger] nf[j]) by {
                        if i < p && j < p {
                        } else if i < p && j == p {
                        } else if i < p && j > p {
                            assert(nf[j] == fv[j - 1]);
                        } else if i == p {
                            assert(nf[j] == fv[j - 1]);
                        } else {
                            assert(nf[i] == fv[i - 1] && nf[j] == fv[j - 1]);
                        }
                    }
                    assert forall|i: int| 0 <= i < nf.len() implies exists|m: int|
                        0 <= m < pk1.len() && #[trigger] pk1[m].format.font == Some(#[trigger] nf[i]) by {
                        if i == p {
                            assert(pk1[k as int].format.font == Some(nf[i]));
                        } else {
                            let ii = if i < p { i } else { i - 1 };
                            assert(nf[i] == fv[ii]);
                            let m = choose|m: int| 0 <= m < pk.len() && #[trigger] pk[m].format.font == Some(fv[ii]);
                            assert(pk1[m] == pk[m]);
                        }
                    }
                    assert forall|m: int| 0 <= m < pk1.len() && (#[trigger] pk1[m].format.font) is Some implies nf.contains(
                        pk1[m].format.font->0,
                    ) by {
                        if m < k {
                            assert(pk1[m] == pk[m]);
                            let i = choose|i: int| 0 <= i < fv.len() && fv[i] == pk[m].format.font->0;
                            if i < p {
                                assert(nf[i] == fv[i]);
                            } else {
                                assert(nf[i + 1] == fv[i]);
                            }
                        } else {
                            assert(nf[p as int] == pk1[m].format.font->0);
                        }
                    }
                }
            },
        }
        k = k + 1;
    }
    assert(pv.subrange(0, ps.len() as int) =~= pv);
    fs
}

/// What a Word document yields.
#[derive(Debug)]
pub struct DocxFacts {
    /// The paragraphs with text, in document order.
    pub paragraphs: Vec<DocxParagraph>,
    /// The paragraph texts separated by blank lines.
    pub raw_text: String,
    /// The page estimate for the text's words.
    pub page_count: usize,
    /// The fonts the paragraphs name, sorted and each once.
    pub fonts: Vec<String>,
}

/// Why a Word document could not be read.
#[derive(Debug, Clone, Copy, PartialEq, Eq, Structural)]
pub enum DocxError {
    /// The bytes are no ZIP archive with a readable `word/document.xml`.
    NoDocumentPart,
    /// `word/document.xml` is not well-formed XML.
    BadXml,
    /// No paragraph has any text.
    NoText,
}

/// The styles of the document's `word/styles.xml`; none when it is missing
/// or does not parse.
pub open spec fn docx_styles(bytes: Seq<u8>) -> Seq<StyleView> {
    match zip_part(bytes, "word/styles.xml"@) {
        Some(t) => match xml_nodes(t) {
            Some(n) => styles_of(n),
            None => seq![],
        },
        None => seq![],
    }
}

/// The paragraphs of a Word document, or why there are none.
pub open spec fn docx_paragraphs(bytes: Seq<u8>) -> Result<Seq<ParagraphView>, DocxError> {
    match zip_part(bytes, "word/document.xml"@) {
        None => Err(DocxError::NoDocumentPart),
        Some(t) => match xml_nodes(t) {
            None => Err(DocxError::BadXml),
            Some(n) => {
                let ps = paragraphs_of(n, docx_styles(bytes));
                if ps.len() == 0 {
                    Err(DocxError::NoText)
                } else {
                    Ok(ps)
                }
            },
        },
    }
}

pub open spec fn paragraph_texts(ps: Seq<ParagraphView>) -> Seq<Seq<char>> {
    ps.map_values(|p: ParagraphView| p.text)
}

/// Reads a Word document: its paragraphs, its text (the paragraphs separated
/// by blank lines), the page estimate for that text's words and its fonts.
pub fn extract_docx(bytes: &[u8]) -> (r: Result<DocxFacts, DocxError>)
    ensures
        match docx_paragraphs(bytes@) {
            Err(e) => r matches Err(x) && x == e,
            Ok(ps) => r matches Ok(f) && paragraph_views(f.paragraphs@) == ps && f.raw_text@ == join_with(
                paragraph_texts(ps),
                "\n\n"@,
            ) && f.page_count == pages_for(word_count(f.raw_text@)) && fonts_listed(
                f.fonts@.map_values(|s: String| s@),
                ps,
            ),
        },
{
    let doc = match docx_part(bytes, "word/document.xml") {
        Some(t) => t,
        None => {
            return Err(DocxError::NoDocumentPart);
        },
    };
    let styles = match docx_part(bytes, "word/styles.xml") {
        Some(t) => match parse_xml(t.as_str()) {
            Some(n) => read_styles(&n),
            None => Vec::new(),
        },
        None => Vec::new(),
    };
    assert(style_views(styles@) == docx_styles(bytes@));
    let nodes = match parse_xml(doc.as_str()) {
        Some(n) => n,
        None => {
            return Err(DocxError::BadXml);
        },
    };
    let paragraphs = assemble_paragraphs(&nodes, &styles);
    if paragraphs.len() == 0 {
        return Err(DocxError::NoText);
    }
    let ghost pv = paragraph_views(paragraphs@);
    let mut texts: Vec<Vec<char>> = Vec::new();
    let mut i: usize = 0;
    while i < paragraphs.len()
        invariant
            i <= paragraphs.len(),
            pv == paragraph_views(paragraphs@),
            texts@.len() == i,
            char_views(texts@) == paragraph_texts(pv).subrange(0, i as int),
        decreases paragraphs.len() - i,
    {
        assert(pv[i as int] == paragraphs@[i as int]@);
        let ghost before = texts@;
        texts.push(chars_of(paragraphs[i].text.as_str()));
        assert forall|q: int| 0 <= q < i + 1 implies #[trigger] char_views(texts@)[q] == paragraph_texts(pv).subrange(0, i + 1)[q] by {
            if q < i {
                assert(texts@[q] == before[q]);
                assert(char_views(before)[q] == paragraph_texts(pv).subrange(0, i as int)[q]);
            }
        }
        assert(char_views(texts@) =~= paragraph_texts(pv).subrange(0, i + 1));
        i = i + 1;
    }
    assert(paragraph_texts(pv).subrange(0, i as int) =~= paragraph_texts(pv));
    let joined = join_with_exec(&texts, &chars_of("\n\n"));
    let words = word_count_exec(&joined);
    let fonts = distinct_fonts(&paragraphs);
    Ok(DocxFacts { paragraphs, raw_text: string_of(&joined), page_count: estimated_page_count(words), fonts })
}

} // verus!
